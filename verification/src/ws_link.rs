//! A unicast link over a browser WebSocket: the URL it opens, what its
//! socket's state and events mean for the link, and its fixed properties.
//! The socket itself, its callbacks and its channels belong to the caller.
use vstd::prelude::*;
use crate::text::{decimal, is_prefix, starts_with, to_decimal};

verus! {

/// The largest batch a WebSocket link carries.
pub const WS_DEFAULT_MTU: u16 = 65535;

/// WebSocket links deliver what they carry.
pub const IS_RELIABLE: bool = true;

/// The ready states of a browser WebSocket.
pub const WS_CONNECTING: u16 = 0;
pub const WS_OPEN: u16 = 1;
pub const WS_CLOSING: u16 = 2;
pub const WS_CLOSED: u16 = 3;

/// The URL that a WebSocket link to `address` opens: the address itself when
/// it is a `ws://` or `wss://` URL, the address behind `ws://` otherwise.
pub open spec fn ws_url(address: Seq<char>) -> Seq<char> {
    if is_prefix("ws://"@, address) || is_prefix("wss://"@, address) {
        address
    } else {
        "ws://"@ + address
    }
}

/// The URL that a WebSocket link to the endpoint address `address` opens.
pub fn endpoint_to_url(address: &str) -> (r: String)
    ensures
        r@ == ws_url(address@),
{
    if starts_with(address, "ws://") || starts_with(address, "wss://") {
        String::from_str(address)
    } else {
        let mut r = String::from_str("ws://");
        r.append(address);
        r
    }
}

/// Every URL that a link opens is a `ws://` or `wss://` URL, and leads to
/// itself: opening a link on it again opens the same URL.
pub proof fn ws_url_is_idempotent(address: Seq<char>)
    ensures
        is_prefix("ws://"@, ws_url(address)) || is_prefix("wss://"@, ws_url(address)),
        ws_url(ws_url(address)) == ws_url(address),
{
    if !(is_prefix("ws://"@, address) || is_prefix("wss://"@, address)) {
        let u = "ws://"@ + address;
        assert(u.take("ws://"@.len() as int) =~= "ws://"@);
    }
}

/// The locator that a browser link gives as its own end.
pub open spec fn ws_src_locator() -> Seq<char> {
    "ws/0.0.0.0:0"@
}

/// How a link is written in messages: its two locators.
pub open spec fn link_text(src: Seq<char>, dst: Seq<char>) -> Seq<char> {
    src + " => "@ + dst
}

/// The message of an error event of the socket.
pub open spec fn error_event_text(message: Seq<char>) -> Seq<char> {
    "WebSocket error: "@ + message
}

/// The message of a close event of the socket.
pub open spec fn close_event_text(code: u16, reason: Seq<char>) -> Seq<char> {
    if reason.len() == 0 {
        "WebSocket closed with code "@ + decimal(code as nat)
    } else {
        "WebSocket closed with code "@ + decimal(code as nat) + ": "@ + reason
    }
}

/// The message that an error event of the socket gives, both to whoever
/// waits for the link to open and to the link's reader.
pub fn error_event_message(message: &str) -> (r: String)
    ensures
        r@ == error_event_text(message@),
{
    let mut r = String::from_str("WebSocket error: ");
    r.append(message);
    r
}

/// The message that a close event of the socket gives, both to whoever waits
/// for the link to open and to the link's reader.
pub fn close_event_message(code: u16, reason: &str) -> (r: String)
    ensures
        r@ == close_event_text(code, reason@),
{
    let mut r = String::from_str("WebSocket closed with code ");
    let code_text = to_decimal(code as u64);
    r.append(code_text.as_str());
    if reason.unicode_len() > 0 {
        r.append(": ");
        r.append(reason);
    }
    r
}

/// Why a link failed.
#[derive(Debug)]
pub enum LinkError {
    /// An error or close event of the socket, with its message.
    Socket(String),
    /// The channel that signals the opening of the socket failed, for the
    /// reason given.
    OpenWaitFailed { url: String, cause: String },
    /// The socket is closing.
    Closing { url: String },
    /// The socket is closed.
    Closed { url: String },
    /// The socket reports a state that WebSockets do not have.
    UnexpectedState { state: u16, url: String },
    /// The channel of socket events failed, for the reason given.
    ReceiveFailed { link: String, cause: String },
    /// A read gave no bytes while more were expected.
    NoBytes { link: String },
    /// A browser cannot listen for links.
    ListenersUnsupported { endpoint: String },
    /// The browser refused to create the socket, for the reason given.
    Create { url: String, cause: String },
    /// The socket could not be closed, for the reason given.
    Shutdown { link: String, cause: String },
    /// The socket refused bytes to send, for the reason given.
    Write { link: String, cause: String },
}

/// The text of a link error.
pub open spec fn link_error_text(e: LinkError) -> Seq<char> {
    match e {
        LinkError::Socket(m) => m@,
        LinkError::OpenWaitFailed { url, cause } => "WebSocket open wait failed for "@ + url@
            + ": "@ + cause@,
        LinkError::Closing { url } => "WebSocket link is closing: "@ + url@,
        LinkError::Closed { url } => "WebSocket link is closed: "@ + url@,
        LinkError::UnexpectedState { state, url } => "WebSocket link is in unexpected state "@
            + decimal(state as nat) + ": "@ + url@,
        LinkError::ReceiveFailed { link, cause } => "Error when receiving from WebSocket link "@
            + link@ + ": "@ + cause@,
        LinkError::NoBytes { link } => "WebSocket link returned no bytes while reading from "@
            + link@,
        LinkError::ListenersUnsupported {
            endpoint,
        } => "WebSocket listeners are not available in browser wasm targets: "@ + endpoint@,
        LinkError::Create { url, cause } => "Can not create WebSocket link to "@ + url@ + ": "@
            + cause@,
        LinkError::Shutdown { link, cause } => "WebSocket link shutdown "@ + link@ + ": "@
            + cause@,
        LinkError::Write { link, cause } => "Write error on WebSocket link "@ + link@ + ": "@
            + cause@,
    }
}

impl LinkError {
    /// The text of the error.
    pub fn message(&self) -> (r: String)
        ensures
            r@ == link_error_text(*self),
    {
        match self {
            LinkError::Socket(m) => m.clone(),
            LinkError::OpenWaitFailed { url, cause } => {
                let mut r = String::from_str("WebSocket open wait failed for ");
                r.append(url.as_str());
                r.append(": ");
                r.append(cause.as_str());
                r
            },
            LinkError::Closing { url } => {
                let mut r = String::from_str("WebSocket link is closing: ");
                r.append(url.as_str());
                r
            },
            LinkError::Closed { url } => {
                let mut r = String::from_str("WebSocket link is closed: ");
                r.append(url.as_str());
                r
            },
            LinkError::UnexpectedState { state, url } => {
                let mut r = String::from_str("WebSocket link is in unexpected state ");
                let state_text = to_decimal(*state as u64);
                r.append(state_text.as_str());
                r.append(": ");
                r.append(url.as_str());
                r
            },
            LinkError::ReceiveFailed { link, cause } => {
                let mut r = String::from_str("Error when receiving from WebSocket link ");
                r.append(link.as_str());
                r.append(": ");
                r.append(cause.as_str());
                r
            },
            LinkError::NoBytes { link } => {
                let mut r = String::from_str(
                    "WebSocket link returned no bytes while reading from ",
                );
                r.append(link.as_str());
                r
            },
            LinkError::ListenersUnsupported { endpoint } => {
                let mut r = String::from_str(
                    "WebSocket listeners are not available in browser wasm targets: ",
                );
                r.append(endpoint.as_str());
                r
            },
            LinkError::Create { url, cause } => {
                let mut r = String::from_str("Can not create WebSocket link to ");
                r.append(url.as_str());
                r.append(": ");
                r.append(cause.as_str());
                r
            },
            LinkError::Shutdown { link, cause } => {
                let mut r = String::from_str("WebSocket link shutdown ");
                r.append(link.as_str());
                r.append(": ");
                r.append(cause.as_str());
                r
            },
            LinkError::Write { link, cause } => {
                let mut r = String::from_str("Write error on WebSocket link ");
                r.append(link.as_str());
                r.append(": ");
                r.append(cause.as_str());
                r
            },
        }
    }
}

/// What waiting for the link to open amounts to, given the socket's state.
#[derive(Debug)]
pub enum OpenCheck {
    /// The socket is open.
    Open,
    /// The socket is connecting: wait for its open signal.
    AwaitSignal,
    /// The socket will not open.
    Fail(LinkError),
}

/// How the peer of a link is authenticated: by the kind of link, for a
/// WebSocket link.
#[derive(Clone, Copy, Debug, PartialEq, Eq, Structural)]
pub enum LinkAuthId {
    Ws,
}

/// An event of the socket, as the link's reader receives it.
pub enum WsEvent {
    /// A binary message.
    Binary(Vec<u8>),
    /// An error or a close, with its message.
    Error(String),
}

/// The plain values of a WebSocket link.
pub struct WsLinkDescriptor {
    url: String,
    src_locator: String,
    dst_locator: String,
}

impl WsLinkDescriptor {
    pub closed spec fn spec_url(&self) -> Seq<char> {
        self.url@
    }

    pub closed spec fn spec_src(&self) -> Seq<char> {
        self.src_locator@
    }

    pub closed spec fn spec_dst(&self) -> Seq<char> {
        self.dst_locator@
    }

    /// A link to the endpoint whose address is `address` and whose locator
    /// is `dst_locator`.
    pub fn new(address: &str, dst_locator: String) -> (r: WsLinkDescriptor)
        ensures
            r.spec_url() == ws_url(address@),
            r.spec_src() == ws_src_locator(),
            r.spec_dst() == dst_locator@,
    {
        WsLinkDescriptor {
            url: endpoint_to_url(address),
            src_locator: String::from_str("ws/0.0.0.0:0"),
            dst_locator,
        }
    }

    /// The URL the socket opens.
    pub fn url(&self) -> (r: &str)
        ensures
            r@ == self.spec_url(),
    {
        self.url.as_str()
    }

    /// The locator of this end.
    pub fn get_src(&self) -> (r: &str)
        ensures
            r@ == self.spec_src(),
    {
        self.src_locator.as_str()
    }

    /// The locator of the other end.
    pub fn get_dst(&self) -> (r: &str)
        ensures
            r@ == self.spec_dst(),
    {
        self.dst_locator.as_str()
    }

    /// How the link is written in messages.
    pub fn to_text(&self) -> (r: String)
        ensures
            r@ == link_text(self.spec_src(), self.spec_dst()),
    {
        let mut r = self.src_locator.clone();
        r.append(" => ");
        r.append(self.dst_locator.as_str());
        r
    }

    /// The error of a socket that the browser refused to create.
    pub fn create_error(&self, cause: String) -> (r: LinkError)
        ensures
            r matches LinkError::Create { url, cause: c } && url@ == self.spec_url() && c@ == cause@,
    {
        LinkError::Create { url: self.url.clone(), cause }
    }

    /// The error of a socket that could not be closed.
    pub fn shutdown_error(&self, cause: String) -> (r: LinkError)
        ensures
            r matches LinkError::Shutdown { link, cause: c } && link@ == link_text(
                self.spec_src(),
                self.spec_dst(),
            ) && c@ == cause@,
    {
        LinkError::Shutdown { link: self.to_text(), cause }
    }

    /// The error of a socket that refused bytes to send.
    pub fn write_error(&self, cause: String) -> (r: LinkError)
        ensures
            r matches LinkError::Write { link, cause: c } && link@ == link_text(
                self.spec_src(),
                self.spec_dst(),
            ) && c@ == cause@,
    {
        LinkError::Write { link: self.to_text(), cause }
    }

    /// How the link's peer is authenticated: as a WebSocket link.
    pub fn get_auth_id(&self) -> (r: LinkAuthId)
        ensures
            r == LinkAuthId::Ws,
    {
        LinkAuthId::Ws
    }

    /// The largest batch the link carries.
    pub fn get_mtu(&self) -> (r: u16)
        ensures
            r == WS_DEFAULT_MTU,
    {
        WS_DEFAULT_MTU
    }

    /// Whether the link delivers what it carries.
    pub fn is_reliable(&self) -> (r: bool)
        ensures
            r == IS_RELIABLE,
    {
        IS_RELIABLE
    }

    /// Whether the link is a byte stream: it carries messages.
    pub fn is_streamed(&self) -> (r: bool)
        ensures
            !r,
    {
        false
    }

    /// The network interfaces of the link: none is known in a browser.
    pub fn get_interface_names(&self) -> (r: Vec<String>)
        ensures
            r@.len() == 0,
    {
        Vec::new()
    }

    /// What waiting for the link to open amounts to when the socket is in
    /// `ready_state`.
    pub fn open_check(&self, ready_state: u16) -> (r: OpenCheck)
        ensures
            ready_state == WS_OPEN ==> r is Open,
            ready_state == WS_CONNECTING ==> r is AwaitSignal,
            ready_state == WS_CLOSING ==> (r matches OpenCheck::Fail(LinkError::Closing { url })
                && url@ == self.spec_url()),
            ready_state == WS_CLOSED ==> (r matches OpenCheck::Fail(LinkError::Closed { url })
                && url@ == self.spec_url()),
            ready_state > WS_CLOSED ==> (r matches OpenCheck::Fail(
                LinkError::UnexpectedState { state, url },
            ) && state == ready_state && url@ == self.spec_url()),
    {
        if ready_state == WS_OPEN {
            OpenCheck::Open
        } else if ready_state == WS_CONNECTING {
            OpenCheck::AwaitSignal
        } else if ready_state == WS_CLOSING {
            OpenCheck::Fail(LinkError::Closing { url: self.url.clone() })
        } else if ready_state == WS_CLOSED {
            OpenCheck::Fail(LinkError::Closed { url: self.url.clone() })
        } else {
            OpenCheck::Fail(LinkError::UnexpectedState { state: ready_state, url: self.url.clone() })
        }
    }

    /// How the wait for the socket's open signal ends: `signal` is what the
    /// open channel gave, or the text of its receive error.
    pub fn open_signal_outcome(&self, signal: Result<Result<(), String>, String>) -> (r: Result<
        (),
        LinkError,
    >)
        ensures
            match signal {
                Ok(Ok(())) => r is Ok,
                Ok(Err(m)) => r matches Err(LinkError::Socket(e)) && e@ == m@,
                Err(c) => r matches Err(LinkError::OpenWaitFailed { url, cause }) && url@
                    == self.spec_url() && cause@ == c@,
            },
    {
        match signal {
            Ok(Ok(())) => Ok(()),
            Ok(Err(m)) => Err(LinkError::Socket(m)),
            Err(c) => Err(LinkError::OpenWaitFailed { url: self.url.clone(), cause: c }),
        }
    }

    /// What the reader gets of an event: the bytes of a binary message, the
    /// message of an error, or a receive failure when the channel of events
    /// failed with the error text given.
    pub fn receive_outcome(&self, event: Result<WsEvent, String>) -> (r: Result<Vec<u8>, LinkError>)
        ensures
            match event {
                Ok(WsEvent::Binary(bytes)) => r matches Ok(b) && b@ == bytes@,
                Ok(WsEvent::Error(m)) => r matches Err(LinkError::Socket(e)) && e@ == m@,
                Err(c) => r matches Err(LinkError::ReceiveFailed { link, cause }) && link@
                    == link_text(self.spec_src(), self.spec_dst()) && cause@ == c@,
            },
    {
        match event {
            Ok(WsEvent::Binary(bytes)) => Ok(bytes),
            Ok(WsEvent::Error(m)) => Err(LinkError::Socket(m)),
            Err(c) => Err(LinkError::ReceiveFailed { link: self.to_text(), cause: c }),
        }
    }

    /// One step of reading exactly `wanted` bytes: `read` bytes are in, and
    /// the last read gave `n` more. A read that gives nothing ends with an
    /// error.
    pub fn read_exact_step(&self, read: usize, wanted: usize, n: usize) -> (r: Result<
        usize,
        LinkError,
    >)
        requires
            read < wanted,
            n <= wanted - read,
        ensures
            n == 0 ==> (r matches Err(LinkError::NoBytes { link }) && link@ == link_text(
                self.spec_src(),
                self.spec_dst(),
            )),
            n > 0 ==> r == Ok::<usize, LinkError>((read + n) as usize),
    {
        if n == 0 {
            Err(LinkError::NoBytes { link: self.to_text() })
        } else {
            Ok(read + n)
        }
    }
}

/// The link manager of WebSocket links in a browser, which can open links
/// but not listen.
pub struct LinkManagerUnicastWs;

impl LinkManagerUnicastWs {
    /// A link manager.
    pub fn new() -> (r: LinkManagerUnicastWs) {
        LinkManagerUnicastWs
    }

    /// Listening on `endpoint`: always refused.
    pub fn new_listener(&self, endpoint: &String) -> (r: Result<String, LinkError>)
        ensures
            r matches Err(LinkError::ListenersUnsupported { endpoint: e }) && e@ == endpoint@,
    {
        Err(LinkError::ListenersUnsupported { endpoint: endpoint.clone() })
    }

    /// Removing a listener on `endpoint`: always refused, there is none.
    pub fn del_listener(&self, endpoint: &String) -> (r: Result<(), LinkError>)
        ensures
            r matches Err(LinkError::ListenersUnsupported { endpoint: e }) && e@ == endpoint@,
    {
        Err(LinkError::ListenersUnsupported { endpoint: endpoint.clone() })
    }

    /// The endpoints listened on: none.
    pub fn get_listeners(&self) -> (r: Vec<String>)
        ensures
            r@.len() == 0,
    {
        Vec::new()
    }

    /// The locators listened on: none.
    pub fn get_locators(&self) -> (r: Vec<String>)
        ensures
            r@.len() == 0,
    {
        Vec::new()
    }
}

} // verus!
