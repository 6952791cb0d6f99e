//! What the server does with each request it reads from a connection.
//!
//! The server reads a handshake, then one command after another; the
//! functions here decide, for each, what is sent back and whether the
//! connection ends.  Reading and writing the socket is left to the caller.
use vstd::prelude::*;
use vstd::utf8::encode_utf8;
use crate::foreign::{check_msgpack_value, msgpack_value_error};
use crate::protocol::{
    carries_payload, command_frame, decode_command, encode_handshake_reply, encode_peer_info,
    encode_response, handshake_reply_frame, lemma_command_prefix, lemma_command_roundtrip,
    parse_command, response_frame, Decoded, FrameParse, VDBCommand, VDBCommandKind,
    VDBOpResultCode, VDBPeerInfo,
};
use crate::msgpack::msgpack_text_array;
use crate::wire::push_bytes;

verus! {

/// The bytes of a text, as the server sends it.
pub open spec fn text_bytes(text: Seq<char>) -> Seq<u8> {
    encode_utf8(text)
}

/// The payload that answers a `PING`.
pub open spec fn pong_bytes() -> Seq<u8> {
    text_bytes("PONG"@)
}

/// The payload that reports a payload the server could not decode.
pub open spec fn invalid_payload_message(error: Seq<char>) -> Seq<u8> {
    text_bytes("INVALID PAYLOAD: "@ + error)
}

/// The payload that reports a command the server could not take.
pub open spec fn invalid_command_message(detail: Seq<char>) -> Seq<u8> {
    text_bytes("INVALID COMMAND: "@ + detail)
}

/// The answer to a command whose payload must be one message-pack value:
/// success with an empty payload when it decodes, a report of the error otherwise.
pub open spec fn payload_reply(payload: Seq<u8>) -> (VDBOpResultCode, Seq<u8>) {
    match msgpack_value_error(payload) {
        None => (VDBOpResultCode::OK, Seq::empty()),
        Some(error) => (VDBOpResultCode::InvalidPayload, invalid_payload_message(error)),
    }
}

/// The answer to a command: `None` when the client asks to disconnect.
pub open spec fn command_reply(kind: VDBCommandKind, payload: Seq<u8>) -> Option<
    (VDBOpResultCode, Seq<u8>),
> {
    match kind {
        VDBCommandKind::PING => Some((VDBOpResultCode::OK, pong_bytes())),
        VDBCommandKind::DISCONNECT => None,
        VDBCommandKind::INSERT => Some(payload_reply(payload)),
        VDBCommandKind::UPDATE => Some(payload_reply(payload)),
        VDBCommandKind::DELETE => Some(payload_reply(payload)),
        VDBCommandKind::UNKNOWN => Some(
            (VDBOpResultCode::UnknownCommand, invalid_command_message("UNKNOWN"@)),
        ),
    }
}

/// What the server does next on a connection.
#[derive(Clone, Debug, PartialEq, Eq)]
pub enum ServerAction {
    /// Send a response with this result code and payload, then read the next command.
    Respond(VDBOpResultCode, Vec<u8>),
    /// Stop serving the connection.
    Disconnect,
}

impl View for ServerAction {
    type V = Option<(VDBOpResultCode, Seq<u8>)>;

    open spec fn view(&self) -> Option<(VDBOpResultCode, Seq<u8>)> {
        match self {
            ServerAction::Respond(code, payload) => Some((*code, payload@)),
            ServerAction::Disconnect => None,
        }
    }
}

/// The bytes of a literal or owned text.
fn bytes_of(text: &str) -> (v: Vec<u8>)
    ensures
        v@ == text_bytes(text@),
{
    let mut v: Vec<u8> = Vec::new();
    push_bytes(&mut v, text.as_bytes());
    assert(v@ =~= text_bytes(text@));
    v
}

/// The answer to a payload once it is known whether it decodes as one
/// message-pack value (`Ok`) or with which error text it does not (`Err`).
pub fn reply_for_payload_check(check: Result<(), String>) -> (r: (VDBOpResultCode, Vec<u8>))
    ensures
        check is Ok ==> r.0 == VDBOpResultCode::OK && r.1@ == Seq::<u8>::empty(),
        check matches Err(error) ==> r.0 == VDBOpResultCode::InvalidPayload && r.1@
            == invalid_payload_message(error@),
{
    match check {
        Ok(()) => {
            let empty: Vec<u8> = Vec::new();
            assert(empty@ =~= Seq::<u8>::empty());
            (VDBOpResultCode::OK, empty)
        },
        Err(error) => {
            let mut message = String::from_str("INVALID PAYLOAD: ");
            message.append(error.as_str());
            (VDBOpResultCode::InvalidPayload, bytes_of(message.as_str()))
        },
    }
}

/// Checks that a payload is one message-pack value and answers accordingly.
fn reply_to_payload(payload: &[u8]) -> (r: (VDBOpResultCode, Vec<u8>))
    ensures
        (r.0, r.1@) == payload_reply(payload@),
{
    reply_for_payload_check(check_msgpack_value(payload))
}

/// Answers an `INSERT`: its payload must be one message-pack value.
pub fn handle_insert(cmd: &VDBCommand) -> (r: (VDBOpResultCode, Vec<u8>))
    ensures
        (r.0, r.1@) == payload_reply(cmd.payload@),
{
    reply_to_payload(cmd.payload.as_slice())
}

/// Answers an `UPDATE`: its payload must be one message-pack value.
pub fn handle_update(cmd: &VDBCommand) -> (r: (VDBOpResultCode, Vec<u8>))
    ensures
        (r.0, r.1@) == payload_reply(cmd.payload@),
{
    reply_to_payload(cmd.payload.as_slice())
}

/// Answers a `DELETE`: its payload must be one message-pack value.
pub fn handle_delete(cmd: &VDBCommand) -> (r: (VDBOpResultCode, Vec<u8>))
    ensures
        (r.0, r.1@) == payload_reply(cmd.payload@),
{
    reply_to_payload(cmd.payload.as_slice())
}

/// What the server does with a command it has read.
pub fn dispatch_command(cmd: &VDBCommand) -> (r: ServerAction)
    ensures
        r@ == command_reply(cmd.kind, cmd.payload@),
{
    match cmd.kind {
        VDBCommandKind::PING => {
            let pong = bytes_of("PONG");
            assert(pong@ == pong_bytes());
            ServerAction::Respond(VDBOpResultCode::OK, pong)
        },
        VDBCommandKind::DISCONNECT => ServerAction::Disconnect,
        VDBCommandKind::INSERT => {
            let (code, payload) = handle_insert(cmd);
            ServerAction::Respond(code, payload)
        },
        VDBCommandKind::UPDATE => {
            let (code, payload) = handle_update(cmd);
            ServerAction::Respond(code, payload)
        },
        VDBCommandKind::DELETE => {
            let (code, payload) = handle_delete(cmd);
            ServerAction::Respond(code, payload)
        },
        VDBCommandKind::UNKNOWN => {
            let message = bytes_of("INVALID COMMAND: UNKNOWN");
            proof {
                reveal_strlit("INVALID COMMAND: UNKNOWN");
                reveal_strlit("INVALID COMMAND: ");
                reveal_strlit("UNKNOWN");
                assert("INVALID COMMAND: UNKNOWN"@ =~= "INVALID COMMAND: "@ + "UNKNOWN"@);
            }
            ServerAction::Respond(VDBOpResultCode::UnknownCommand, message)
        },
    }
}

/// How the server introduces itself: as "VectorDB", in the given version.
pub fn server_peer_info(version: String) -> (info: VDBPeerInfo)
    ensures
        info.version == version,
        info.app_name@ == "VectorDB"@,
{
    VDBPeerInfo { version, app_name: String::from_str("VectorDB") }
}

/// The bytes that answer a handshake: the reply carrying the server's own
/// description in the given version.  `Err` holds the text of an encoding failure.
pub fn handshake_reply(version: String) -> (r: Result<Vec<u8>, String>)
    ensures
        r matches Ok(bytes) ==> bytes@ == handshake_reply_frame(
            msgpack_text_array(seq![version@, "VectorDB"@]),
        ),
{
    let info = server_peer_info(version);
    match encode_peer_info(&info) {
        Ok(bytes) => Ok(encode_handshake_reply(bytes.as_slice())),
        Err(text) => Err(text),
    }
}

/// Why reading a command from a connection failed, as far as the server tells causes apart.
#[derive(Clone, Copy, Debug, PartialEq, Eq, Structural)]
pub enum ReadFailure {
    BrokenPipe,
    ConnectionAborted,
    ConnectionReset,
    NotConnected,
    UnexpectedEof,
    /// Any other cause.
    Other,
}

/// Whether a failure to read means the client is gone.
pub open spec fn failure_ends_connection(failure: ReadFailure) -> bool {
    failure != ReadFailure::Other
}

/// The answer to a failed read whose error reads as `description`: the
/// connection ends when the client is gone, otherwise the failure is reported.
pub open spec fn read_failure_reply(failure: ReadFailure, description: Seq<char>) -> Option<
    (VDBOpResultCode, Seq<u8>),
> {
    if failure_ends_connection(failure) {
        None
    } else {
        Some((VDBOpResultCode::InvalidPayload, invalid_command_message(description)))
    }
}

/// What the server does when reading a command failed; `description` is the
/// error as its `Debug` formatting writes it.
pub fn handle_read_failure(failure: ReadFailure, description: &str) -> (r: ServerAction)
    ensures
        r@ == read_failure_reply(failure, description@),
{
    match failure {
        ReadFailure::Other => {
            let mut message = String::from_str("INVALID COMMAND: ");
            message.append(description);
            ServerAction::Respond(VDBOpResultCode::InvalidPayload, bytes_of(message.as_str()))
        },
        _ => ServerAction::Disconnect,
    }
}

/// Where a connection stands.
#[derive(Clone, Copy, Debug, PartialEq, Eq, Structural)]
pub enum ConnectionPhase {
    /// The client has not yet introduced itself.
    AwaitingHandshake,
    /// The client is known and its commands are answered.
    Serving,
    /// Nothing more is read or sent.
    Closed,
}

/// What a connection holds: who the client is and where the exchange stands.
pub struct ConnectionView {
    pub client_info: Option<VDBPeerInfo>,
    pub phase: ConnectionPhase,
}

/// The server's side of one connection: who the client is and where the
/// exchange stands.  The socket itself stays with the caller.  A client is
/// known whenever its commands are served, and not before its handshake.
#[derive(Debug)]
pub struct VDBConnection {
    client_info: Option<VDBPeerInfo>,
    phase: ConnectionPhase,
}

impl View for VDBConnection {
    type V = ConnectionView;

    closed spec fn view(&self) -> ConnectionView {
        ConnectionView { client_info: self.client_info, phase: self.phase }
    }
}

impl VDBConnection {
    #[verifier::type_invariant]
    spec fn client_known_when_serving(&self) -> bool {
        &&& self.phase == ConnectionPhase::AwaitingHandshake ==> self.client_info is None
        &&& self.phase == ConnectionPhase::Serving ==> self.client_info is Some
    }

    /// A connection that has just been accepted.
    pub fn new() -> (c: VDBConnection)
        ensures
            c@.phase == ConnectionPhase::AwaitingHandshake,
            c@.client_info is None,
    {
        VDBConnection { client_info: None, phase: ConnectionPhase::AwaitingHandshake }
    }

    /// Where the exchange stands.
    pub fn phase(&self) -> (p: ConnectionPhase)
        ensures
            p == self@.phase,
    {
        self.phase
    }

    /// Who the client is, once its handshake has been read; always known
    /// while its commands are served.
    pub fn client_info(&self) -> (info: &Option<VDBPeerInfo>)
        ensures
            *info == self@.client_info,
            self@.phase == ConnectionPhase::Serving ==> info is Some,
            self@.phase == ConnectionPhase::AwaitingHandshake ==> info is None,
    {
        proof {
            use_type_invariant(self);
        }
        &self.client_info
    }

    /// Records the client's description once its handshake has been read;
    /// its commands are served from now on.
    pub fn accept_client(&mut self, info: VDBPeerInfo)
        ensures
            final(self)@.phase == ConnectionPhase::Serving,
            final(self)@.client_info == Some(info),
    {
        *self = VDBConnection { client_info: Some(info), phase: ConnectionPhase::Serving };
    }

    /// Answers a command read from the connection; a disconnect closes it.
    pub fn on_command(&mut self, cmd: &VDBCommand) -> (r: ServerAction)
        requires
            old(self)@.phase == ConnectionPhase::Serving,
        ensures
            r@ == command_reply(cmd.kind, cmd.payload@),
            final(self)@.client_info == old(self)@.client_info,
            final(self)@.phase == (if r@ is None {
                ConnectionPhase::Closed
            } else {
                ConnectionPhase::Serving
            }),
    {
        let r = dispatch_command(cmd);
        if let ServerAction::Disconnect = r {
            self.phase = ConnectionPhase::Closed;
        }
        r
    }

    /// Answers a failed read; a client that is gone closes the connection.
    pub fn on_read_failure(&mut self, failure: ReadFailure, description: &str) -> (r: ServerAction)
        requires
            old(self)@.phase == ConnectionPhase::Serving,
        ensures
            r@ == read_failure_reply(failure, description@),
            final(self)@.client_info == old(self)@.client_info,
            final(self)@.phase == (if r@ is None {
                ConnectionPhase::Closed
            } else {
                ConnectionPhase::Serving
            }),
    {
        let r = handle_read_failure(failure, description);
        if let ServerAction::Disconnect = r {
            self.phase = ConnectionPhase::Closed;
        }
        r
    }

    /// Marks the connection closed; nothing more is read or sent on it.
    pub fn close(&mut self)
        ensures
            final(self)@.phase == ConnectionPhase::Closed,
            final(self)@.client_info == old(self)@.client_info,
    {
        self.phase = ConnectionPhase::Closed;
    }
}

/// What serving `s`, the bytes a client sends once its handshake is over,
/// comes to: the bytes sent back, how many bytes were read, and whether the
/// client asked to disconnect.  Commands are answered one by one, in order,
/// until a disconnect or until the bytes end inside a command.
pub open spec fn serve_commands(s: Seq<u8>) -> (Seq<u8>, nat, bool)
    decreases s.len(),
{
    match parse_command(s) {
        FrameParse::NeedMore(_) => (Seq::empty(), 0, false),
        FrameParse::Complete(n, (kind, payload)) => {
            if 0 < n <= s.len() {
                match command_reply(kind, payload) {
                    None => (Seq::empty(), n, true),
                    Some((code, body)) => {
                        let rest = serve_commands(s.subrange(n as int, s.len() as int));
                        (response_frame(code.code(), body) + rest.0, n + rest.1, rest.2)
                    },
                }
            } else {
                (Seq::empty(), 0, false)
            }
        },
    }
}

/// A whole command is at least one byte long and lies within the bytes received.
pub proof fn lemma_parse_command_bounds(s: Seq<u8>)
    ensures
        parse_command(s) matches FrameParse::Complete(n, _) ==> 0 < n <= s.len(),
{
}

/// The bytes a client sends for a list of commands, one after the other.
pub open spec fn commands_bytes(cmds: Seq<(VDBCommandKind, Seq<u8>)>) -> Seq<u8>
    decreases cmds.len(),
{
    if cmds.len() == 0 {
        Seq::empty()
    } else {
        command_frame(cmds[0].0, cmds[0].1) + commands_bytes(cmds.drop_first())
    }
}

/// The bytes a server sends back for one command; none for a disconnect.
pub open spec fn reply_bytes(c: (VDBCommandKind, Seq<u8>)) -> Seq<u8> {
    match command_reply(c.0, c.1) {
        Some((code, body)) => response_frame(code.code(), body),
        None => Seq::empty(),
    }
}

/// The bytes a server sends back for a list of commands, one answer after the other.
pub open spec fn replies_bytes(cmds: Seq<(VDBCommandKind, Seq<u8>)>) -> Seq<u8>
    decreases cmds.len(),
{
    if cmds.len() == 0 {
        Seq::empty()
    } else {
        reply_bytes(cmds[0]) + replies_bytes(cmds.drop_first())
    }
}

/// A command a client can send in the middle of a session: anything but a
/// disconnect, with a payload whose length fits the frame.
pub open spec fn mid_session_command(c: (VDBCommandKind, Seq<u8>)) -> bool {
    &&& c.0 != VDBCommandKind::DISCONNECT
    &&& carries_payload(c.0.code()) ==> c.1.len() <= u32::MAX
}

/// Serving a command followed by more bytes answers the command, then serves the rest.
proof fn lemma_serve_step(c: (VDBCommandKind, Seq<u8>), rest: Seq<u8>)
    requires
        mid_session_command(c),
    ensures
        serve_commands(command_frame(c.0, c.1) + rest) == (
            reply_bytes(c) + serve_commands(rest).0,
            command_frame(c.0, c.1).len() + serve_commands(rest).1,
            serve_commands(rest).2,
        ),
{
    let frame = command_frame(c.0, c.1);
    let s = frame + rest;
    lemma_command_roundtrip(c.0, c.1, rest);
    assert(s.subrange(frame.len() as int, s.len() as int) =~= rest);
    assert(frame.len() > 0);
}

/// Serving the bytes after the last command: nothing when they end, the
/// disconnect alone when they start with one.
proof fn lemma_serve_end(tail: Seq<u8>)
    requires
        tail.len() == 0 || tail[0] == VDBCommandKind::DISCONNECT.code(),
    ensures
        serve_commands(tail) == (
            Seq::<u8>::empty(),
            (if tail.len() == 0 {
                0nat
            } else {
                1nat
            }),
            tail.len() > 0,
        ),
{
}

/// Law: serving a stream of commands answers each with exactly one response,
/// in order.  When the stream then ends, the server has read every command and
/// waits for more; when it then holds a disconnect, the server reads that one
/// byte and nothing after it, and the session ends.
pub proof fn lemma_session(cmds: Seq<(VDBCommandKind, Seq<u8>)>, tail: Seq<u8>)
    requires
        forall|i: int| 0 <= i < cmds.len() ==> mid_session_command(#[trigger] cmds[i]),
        tail.len() == 0 || tail[0] == VDBCommandKind::DISCONNECT.code(),
    ensures
        serve_commands(commands_bytes(cmds) + tail) == (
            replies_bytes(cmds),
            commands_bytes(cmds).len() + (if tail.len() == 0 {
                0nat
            } else {
                1nat
            }),
            tail.len() > 0,
        ),
    decreases cmds.len(),
{
    if cmds.len() == 0 {
        assert(commands_bytes(cmds) + tail =~= tail);
        lemma_serve_end(tail);
    } else {
        let c = cmds[0];
        assert(mid_session_command(c));
        let others = cmds.drop_first();
        assert forall|i: int| 0 <= i < others.len() implies mid_session_command(
            #[trigger] others[i],
        ) by {
            assert(others[i] == cmds[i + 1]);
        }
        let rest = commands_bytes(others) + tail;
        assert(commands_bytes(cmds) + tail =~= command_frame(c.0, c.1) + rest);
        lemma_serve_step(c, rest);
        lemma_session(others, tail);
    }
}

/// Serving whole commands followed by any bytes answers the commands in
/// order, then serves those bytes as if they came alone.
pub proof fn lemma_session_then(cmds: Seq<(VDBCommandKind, Seq<u8>)>, tail: Seq<u8>)
    requires
        forall|i: int| 0 <= i < cmds.len() ==> mid_session_command(#[trigger] cmds[i]),
    ensures
        serve_commands(commands_bytes(cmds) + tail) == (
            replies_bytes(cmds) + serve_commands(tail).0,
            commands_bytes(cmds).len() + serve_commands(tail).1,
            serve_commands(tail).2,
        ),
    decreases cmds.len(),
{
    if cmds.len() == 0 {
        assert(commands_bytes(cmds) + tail =~= tail);
        assert(replies_bytes(cmds) + serve_commands(tail).0 =~= serve_commands(tail).0);
    } else {
        let c = cmds[0];
        assert(mid_session_command(c));
        let others = cmds.drop_first();
        assert forall|i: int| 0 <= i < others.len() implies mid_session_command(
            #[trigger] others[i],
        ) by {
            assert(others[i] == cmds[i + 1]);
        }
        let rest = commands_bytes(others) + tail;
        assert(commands_bytes(cmds) + tail =~= command_frame(c.0, c.1) + rest);
        lemma_serve_step(c, rest);
        lemma_session_then(others, tail);
        assert(reply_bytes(c) + (replies_bytes(others) + serve_commands(tail).0) =~= replies_bytes(
            cmds,
        ) + serve_commands(tail).0);
    }
}

/// Law: when the bytes received end inside a command, the server answers every
/// whole command before it, reads exactly their bytes and none of the
/// unfinished one (which is left for the next read), and keeps the session open.
pub proof fn lemma_session_keeps_partial_command(
    cmds: Seq<(VDBCommandKind, Seq<u8>)>,
    kind: VDBCommandKind,
    payload: Seq<u8>,
    m: nat,
)
    requires
        forall|i: int| 0 <= i < cmds.len() ==> mid_session_command(#[trigger] cmds[i]),
        carries_payload(kind.code()) ==> payload.len() <= u32::MAX,
        m < command_frame(kind, payload).len(),
    ensures
        serve_commands(commands_bytes(cmds) + command_frame(kind, payload).take(m as int)) == (
            replies_bytes(cmds),
            commands_bytes(cmds).len(),
            false,
        ),
{
    let part = command_frame(kind, payload).take(m as int);
    lemma_command_prefix(kind, payload, m);
    assert(serve_commands(part) == (Seq::<u8>::empty(), 0nat, false));
    lemma_session_then(cmds, part);
    assert(replies_bytes(cmds) + Seq::<u8>::empty() =~= replies_bytes(cmds));
}

/// Law: the commands that carry documents (insert, update, delete) are
/// answered alike, by whether their payload is one message-pack value: success
/// with an empty payload when it is, otherwise `InvalidPayload` with a text
/// that names the decoding error.
pub proof fn lemma_document_commands_answered_alike(payload: Seq<u8>)
    ensures
        command_reply(VDBCommandKind::UPDATE, payload) == command_reply(
            VDBCommandKind::INSERT,
            payload,
        ),
        command_reply(VDBCommandKind::DELETE, payload) == command_reply(
            VDBCommandKind::INSERT,
            payload,
        ),
        msgpack_value_error(payload) is None ==> command_reply(VDBCommandKind::INSERT, payload)
            == Some((VDBOpResultCode::OK, Seq::<u8>::empty())),
        msgpack_value_error(payload) matches Some(e) ==> command_reply(
            VDBCommandKind::INSERT,
            payload,
        ) == Some((VDBOpResultCode::InvalidPayload, encode_utf8("INVALID PAYLOAD: "@ + e))),
{
}

/// Law: a ping is answered with success and the text "PONG", whatever its
/// payload; a disconnect gets no answer; a command of unknown kind is
/// answered `UnknownCommand`.
pub proof fn lemma_control_commands(payload: Seq<u8>)
    ensures
        command_reply(VDBCommandKind::PING, payload) == Some(
            (VDBOpResultCode::OK, encode_utf8("PONG"@)),
        ),
        command_reply(VDBCommandKind::DISCONNECT, payload) is None,
        command_reply(VDBCommandKind::UNKNOWN, payload) matches Some((code, _)) && code
            == VDBOpResultCode::UnknownCommand,
{
}

/// Law: a failed read ends the connection exactly when its cause says the
/// client is gone (a broken pipe, an aborted, reset or missing connection, or
/// the end of the stream); any other failure is reported to the client as
/// `InvalidPayload` with "INVALID COMMAND: " and the error's description.
pub proof fn lemma_read_failures(failure: ReadFailure, description: Seq<char>)
    ensures
        read_failure_reply(failure, description) is None <==> (failure == ReadFailure::BrokenPipe
            || failure == ReadFailure::ConnectionAborted || failure
            == ReadFailure::ConnectionReset || failure == ReadFailure::NotConnected || failure
            == ReadFailure::UnexpectedEof),
        failure == ReadFailure::Other ==> read_failure_reply(failure, description) == Some(
            (VDBOpResultCode::InvalidPayload, encode_utf8("INVALID COMMAND: "@ + description)),
        ),
{
}

impl VDBConnection {
    /// Serves the bytes received after the handshake: answers every whole
    /// command in them, in order, stopping at a disconnect (which closes the
    /// connection) or where the bytes end inside a command.  Gives the bytes
    /// to send back and how many bytes were read.
    pub fn serve_bytes(&mut self, input: &[u8]) -> (r: (Vec<u8>, usize))
        requires
            old(self)@.phase == ConnectionPhase::Serving,
        ensures
            final(self)@.client_info == old(self)@.client_info,
            (r.0@, r.1 as nat, final(self)@.phase == ConnectionPhase::Closed) == serve_commands(
                input@,
            ),
            final(self)@.phase == ConnectionPhase::Closed || final(self)@.phase
                == ConnectionPhase::Serving,
    {
        let ghost info = self@.client_info;
        let mut out: Vec<u8> = Vec::new();
        let mut pos: usize = 0;
        assert(input@.subrange(0, input@.len() as int) =~= input@);
        assert(out@ + serve_commands(input@).0 =~= serve_commands(input@).0);
        loop
            invariant
                pos <= input@.len(),
                self@.client_info == info,
                info == old(self)@.client_info,
                self@.phase == ConnectionPhase::Serving,
                serve_commands(input@) == (
                    out@ + serve_commands(input@.subrange(pos as int, input@.len() as int)).0,
                    (pos + serve_commands(input@.subrange(pos as int, input@.len() as int)).1) as nat,
                    serve_commands(input@.subrange(pos as int, input@.len() as int)).2,
                ),
            decreases input@.len() - pos,
        {
            let rest = &input[pos..input.len()];
            let ghost sub = rest@;
            proof {
                lemma_parse_command_bounds(sub);
            }
            match decode_command(rest) {
                Decoded::NeedMore(_) => {
                    assert(out@ + Seq::<u8>::empty() =~= out@);
                    return (out, pos);
                },
                Decoded::Complete(n, cmd) => {
                    assert(sub.subrange(n as int, sub.len() as int) =~= input@.subrange(
                        pos + n,
                        input@.len() as int,
                    ));
                    pos = pos + n;
                    match self.on_command(&cmd) {
                        ServerAction::Respond(code, body) => {
                            let frame = encode_response(code, body.as_slice());
                            let ghost before = out@;
                            push_bytes(&mut out, frame.as_slice());
                            assert(before + (frame@ + serve_commands(
                                input@.subrange(pos as int, input@.len() as int),
                            ).0) =~= out@ + serve_commands(
                                input@.subrange(pos as int, input@.len() as int),
                            ).0);
                        },
                        ServerAction::Disconnect => {
                            assert(out@ + Seq::<u8>::empty() =~= out@);
                            return (out, pos);
                        },
                    }
                },
            }
        }
    }
}

} // verus!
