//! What the client makes of the server's answers.
//!
//! The client sends a handshake, then commands; each command is answered by
//! one response frame.  The functions here build the commands and turn the
//! decoded answers into the results the client reports.  Sockets stay with
//! the caller.
use vstd::prelude::*;
use crate::foreign::{encode_msgpack_texts, lossy_string, lossy_text};
use crate::msgpack::msgpack_text_array;
use vstd::utf8::{encode_utf8, encode_utf8_decode_utf8, encode_utf8_valid_utf8};
use crate::protocol::{
    encode_handshake_request, encode_peer_info, handshake_request_frame, peer_info_bytes,
    ResponseFrame, VDBCommand, VDBCommandKind, VDBPeerInfo,
};

verus! {

/// The answer to a ping as the client reports it.
#[derive(Clone, Debug, PartialEq, Eq)]
pub struct VDBPingResponse {
    pub success: bool,
    pub content: String,
    pub error: Option<String>,
}

impl View for VDBPingResponse {
    type V = (bool, Seq<char>, Option<Seq<char>>);

    open spec fn view(&self) -> (bool, Seq<char>, Option<Seq<char>>) {
        (
            self.success,
            self.content@,
            match self.error {
                Some(e) => Some(e@),
                None => None,
            },
        )
    }
}

/// The answer to an insert as the client reports it.
#[derive(Clone, Debug, PartialEq, Eq)]
pub struct VDBInsertResponse {
    pub success: bool,
    pub error: Option<String>,
}

impl View for VDBInsertResponse {
    type V = (bool, Option<Seq<char>>);

    open spec fn view(&self) -> (bool, Option<Seq<char>>) {
        (
            self.success,
            match self.error {
                Some(e) => Some(e@),
                None => None,
            },
        )
    }
}

/// The answer to an update as the client reports it.
#[derive(Clone, Debug, PartialEq, Eq)]
pub struct VDBUpdateResponse {
    pub success: bool,
    pub error: Option<String>,
}

impl View for VDBUpdateResponse {
    type V = (bool, Option<Seq<char>>);

    open spec fn view(&self) -> (bool, Option<Seq<char>>) {
        (
            self.success,
            match self.error {
                Some(e) => Some(e@),
                None => None,
            },
        )
    }
}

/// The answer to a delete as the client reports it.
#[derive(Clone, Debug, PartialEq, Eq)]
pub struct VDBDeleteResponse {
    pub success: bool,
    pub error: Option<String>,
}

impl View for VDBDeleteResponse {
    type V = (bool, Option<Seq<char>>);

    open spec fn view(&self) -> (bool, Option<Seq<char>>) {
        (
            self.success,
            match self.error {
                Some(e) => Some(e@),
                None => None,
            },
        )
    }
}

/// A request's outcome as the client sees it: the payload of a success, or
/// the text of an error.
pub open spec fn outcome_view(r: Result<Vec<u8>, String>) -> Result<Seq<u8>, Seq<char>> {
    match r {
        Ok(p) => Ok(p@),
        Err(m) => Err(m@),
    }
}

/// The outcome of a response: result code 0 is success and carries the
/// payload; any other code is an error whose text is the payload.
pub open spec fn response_outcome_of(code: u16, payload: Seq<u8>) -> Result<Seq<u8>, Seq<char>> {
    if code == 0 {
        Ok(payload)
    } else {
        Err(lossy_text(payload))
    }
}

/// The ping result for an outcome: the payload read as text on success, the
/// error's text otherwise.
pub open spec fn ping_response_of(outcome: Result<Seq<u8>, Seq<char>>) -> (
    bool,
    Seq<char>,
    Option<Seq<char>>,
) {
    match outcome {
        Ok(p) => (true, lossy_text(p), None),
        Err(m) => (false, Seq::empty(), Some(m)),
    }
}

/// The insert (or update, or delete) result for an outcome.
pub open spec fn insert_response_of(outcome: Result<Seq<u8>, Seq<char>>) -> (
    bool,
    Option<Seq<char>>,
) {
    match outcome {
        Ok(_) => (true, None),
        Err(m) => (false, Some(m)),
    }
}

/// Interprets a response read from the server.
pub fn response_outcome(frame: ResponseFrame) -> (r: Result<Vec<u8>, String>)
    ensures
        outcome_view(r) == response_outcome_of(frame.code, frame.payload@),
{
    if frame.code == 0 {
        Ok(frame.payload)
    } else {
        Err(lossy_string(frame.payload.as_slice()))
    }
}

impl VDBPingResponse {
    /// The ping result for an outcome; an error may also come from the
    /// connection itself, with the text of that error.
    pub fn from_outcome(outcome: Result<Vec<u8>, String>) -> (r: VDBPingResponse)
        ensures
            r@ == ping_response_of(outcome_view(outcome)),
    {
        match outcome {
            Ok(payload) => VDBPingResponse {
                success: true,
                content: lossy_string(payload.as_slice()),
                error: None,
            },
            Err(message) => VDBPingResponse {
                success: false,
                content: String::new(),
                error: Some(message),
            },
        }
    }
}

impl VDBInsertResponse {
    /// The insert result for an outcome; an error may also come from the
    /// connection itself, with the text of that error.
    pub fn from_outcome(outcome: Result<Vec<u8>, String>) -> (r: VDBInsertResponse)
        ensures
            r@ == insert_response_of(outcome_view(outcome)),
    {
        match outcome {
            Ok(_) => VDBInsertResponse { success: true, error: None },
            Err(message) => VDBInsertResponse { success: false, error: Some(message) },
        }
    }
}

impl VDBUpdateResponse {
    /// The update result for an outcome; an error may also come from the
    /// connection itself, with the text of that error.
    pub fn from_outcome(outcome: Result<Vec<u8>, String>) -> (r: VDBUpdateResponse)
        ensures
            r@ == insert_response_of(outcome_view(outcome)),
    {
        match outcome {
            Ok(_) => VDBUpdateResponse { success: true, error: None },
            Err(message) => VDBUpdateResponse { success: false, error: Some(message) },
        }
    }
}

impl VDBDeleteResponse {
    /// The delete result for an outcome; an error may also come from the
    /// connection itself, with the text of that error.
    pub fn from_outcome(outcome: Result<Vec<u8>, String>) -> (r: VDBDeleteResponse)
        ensures
            r@ == insert_response_of(outcome_view(outcome)),
    {
        match outcome {
            Ok(_) => VDBDeleteResponse { success: true, error: None },
            Err(message) => VDBDeleteResponse { success: false, error: Some(message) },
        }
    }
}

/// How a client built on this library introduces itself: as the package
/// `package` followed by " SDK", in the given version.
pub fn client_peer_info(package: &str, version: String) -> (info: VDBPeerInfo)
    ensures
        info.version == version,
        info.app_name@ == package@ + " SDK"@,
{
    let mut app_name = String::from_str(package);
    app_name.append(" SDK");
    VDBPeerInfo { version, app_name }
}

/// The client's side of a connection: how it introduces itself and what it
/// learned of the server.  The socket stays with the caller.
#[derive(Debug)]
pub struct VDBAsyncClient {
    pub info: VDBPeerInfo,
    pub server_info: Option<VDBPeerInfo>,
}

impl VDBAsyncClient {
    /// A client that will introduce itself with `info` and knows nothing of the server yet.
    pub fn new(info: VDBPeerInfo) -> (c: VDBAsyncClient)
        ensures
            c.info == info,
            c.server_info is None,
    {
        VDBAsyncClient { info, server_info: None }
    }

    /// The bytes that open the connection: the handshake request carrying
    /// this client's own description.  `Err` holds the text of an encoding failure.
    pub fn handshake_request(&self) -> (r: Result<Vec<u8>, String>)
        ensures
            r matches Ok(bytes) ==> bytes@ == handshake_request_frame(peer_info_bytes(self.info)),
    {
        match encode_peer_info(&self.info) {
            Ok(info) => Ok(encode_handshake_request(info.as_slice())),
            Err(text) => Err(text),
        }
    }

    /// Records the description the server answered the handshake with.
    pub fn accept_server_info(&mut self, info: VDBPeerInfo)
        ensures
            final(self).info == old(self).info,
            final(self).server_info == Some(info),
    {
        self.server_info = Some(info);
    }

    /// The command that pings the server.
    pub fn ping_command() -> (c: VDBCommand)
        ensures
            c.kind == VDBCommandKind::PING,
            c.payload@ == Seq::<u8>::empty(),
    {
        VDBCommand { kind: VDBCommandKind::PING, payload: Vec::new() }
    }

    /// The command that inserts the documents serialized in `payload`.
    pub fn insert_command(payload: Vec<u8>) -> (c: VDBCommand)
        ensures
            c.kind == VDBCommandKind::INSERT,
            c.payload@ == payload@,
    {
        VDBCommand { kind: VDBCommandKind::INSERT, payload }
    }

    /// The command that updates the documents serialized in `payload`.
    pub fn update_command(payload: Vec<u8>) -> (c: VDBCommand)
        ensures
            c.kind == VDBCommandKind::UPDATE,
            c.payload@ == payload@,
    {
        VDBCommand { kind: VDBCommandKind::UPDATE, payload }
    }

    /// The command that deletes the documents with the given ids, which
    /// travel as a message-pack array of strings; `Err` holds the text of an
    /// encoding failure.
    pub fn delete_command(ids: &Vec<String>) -> (r: Result<VDBCommand, String>)
        ensures
            r matches Ok(c) ==> c.kind == VDBCommandKind::DELETE && c.payload@ == msgpack_text_array(
                ids@.map_values(|t: String| t@),
            ),
    {
        match encode_msgpack_texts(ids) {
            Ok(payload) => Ok(VDBCommand { kind: VDBCommandKind::DELETE, payload }),
            Err(text) => Err(text),
        }
    }

    /// The command that ends the connection.
    pub fn disconnect_command() -> (c: VDBCommand)
        ensures
            c.kind == VDBCommandKind::DISCONNECT,
            c.payload@ == Seq::<u8>::empty(),
    {
        VDBCommand { kind: VDBCommandKind::DISCONNECT, payload: Vec::new() }
    }
}

/// Law: a response succeeds exactly when its result code is 0, and then
/// hands over its payload unchanged; otherwise its payload is read back as
/// the error's text.  A ping reports success with the answer's text, or
/// failure with the error's text and no content; an insert, update or delete
/// reports success with no error, or failure with the error's text.
pub proof fn lemma_outcomes(code: u16, payload: Seq<u8>, text: Seq<char>)
    ensures
        response_outcome_of(code, payload) is Ok <==> code == 0,
        code == 0 ==> response_outcome_of(code, payload) == Ok::<Seq<u8>, Seq<char>>(payload),
        code != 0 ==> response_outcome_of(code, encode_utf8(text)) == Err::<Seq<u8>, Seq<char>>(
            text,
        ),
        ping_response_of(Ok(encode_utf8(text))) == (true, text, None::<Seq<char>>),
        ping_response_of(Err(text)) == (false, Seq::<char>::empty(), Some(text)),
        insert_response_of(Ok(payload)) == (true, None::<Seq<char>>),
        insert_response_of(Err(text)) == (false, Some(text)),
{
    encode_utf8_valid_utf8(text);
    encode_utf8_decode_utf8(text);
}

} // verus!
