//! The protocol's vocabulary (command kinds, result codes, peer descriptions)
//! and the byte frames that carry it in both directions.
//!
//! Every frame is decoded from the bytes received so far.  While they do not
//! yet hold a whole frame the decoder says how many more bytes it needs before
//! it can go on, which is exactly the number of bytes that the next read of the
//! stream must fetch.
use vstd::prelude::*;
use crate::foreign::{encode_msgpack_texts, lossy_string, lossy_text};
use crate::msgpack::msgpack_text_array;
use crate::wire::{
    be_u16_bytes, be_u16_value, be_u32_bytes, be_u32_value, copy_range, push_bytes, push_u16_be,
    push_u32_be, read_u16_be, read_u32_be, lemma_be_u16_bytes_of_value, lemma_be_u16_roundtrip,
    lemma_be_u32_bytes_of_value, lemma_be_u32_roundtrip, network_u32,
};

verus! {

/// What a peer says about itself during the handshake.
#[derive(Clone, Debug, PartialEq, Eq)]
pub struct VDBPeerInfo {
    pub version: String,
    pub app_name: String,
}

/// The bytes of a peer description as it travels in the handshake: a
/// message-pack array of its version and its name.
pub open spec fn peer_info_bytes(info: VDBPeerInfo) -> Seq<u8> {
    msgpack_text_array(seq![info.version@, info.app_name@])
}

/// Serializes a peer description for the handshake.  `Err` holds the text of
/// an encoding failure.
pub fn encode_peer_info(info: &VDBPeerInfo) -> (r: Result<Vec<u8>, String>)
    ensures
        r matches Ok(bytes) ==> bytes@ == peer_info_bytes(*info),
{
    let mut fields: Vec<String> = Vec::new();
    fields.push(info.version.clone());
    fields.push(info.app_name.clone());
    assert(fields@.map_values(|t: String| t@) =~= seq![info.version@, info.app_name@]);
    encode_msgpack_texts(&fields)
}

/// The kind of a command; it travels as a single byte.
#[allow(non_camel_case_types)]
#[derive(Clone, Copy, Debug, PartialEq, Eq, Structural)]
pub enum VDBCommandKind {
    UNKNOWN,
    INSERT,
    UPDATE,
    DELETE,
    PING,
    DISCONNECT,
}

impl VDBCommandKind {
    /// The byte that stands for this kind on the wire.
    pub open spec fn code(self) -> u8 {
        match self {
            VDBCommandKind::UNKNOWN => 0,
            VDBCommandKind::INSERT => 1,
            VDBCommandKind::UPDATE => 2,
            VDBCommandKind::DELETE => 3,
            VDBCommandKind::PING => 5,
            VDBCommandKind::DISCONNECT => 6,
        }
    }

    /// The kind that a byte stands for, if any.
    pub open spec fn from_code(b: u8) -> Option<VDBCommandKind> {
        if b == 0 {
            Some(VDBCommandKind::UNKNOWN)
        } else if b == 1 {
            Some(VDBCommandKind::INSERT)
        } else if b == 2 {
            Some(VDBCommandKind::UPDATE)
        } else if b == 3 {
            Some(VDBCommandKind::DELETE)
        } else if b == 5 {
            Some(VDBCommandKind::PING)
        } else if b == 6 {
            Some(VDBCommandKind::DISCONNECT)
        } else {
            None
        }
    }

    /// The kind the server reads from a byte: bytes that stand for no kind read as `UNKNOWN`.
    pub open spec fn of_byte(b: u8) -> VDBCommandKind {
        match VDBCommandKind::from_code(b) {
            Some(k) => k,
            None => VDBCommandKind::UNKNOWN,
        }
    }

    pub fn to_u8(self) -> (b: u8)
        ensures
            b == self.code(),
    {
        match self {
            VDBCommandKind::UNKNOWN => 0,
            VDBCommandKind::INSERT => 1,
            VDBCommandKind::UPDATE => 2,
            VDBCommandKind::DELETE => 3,
            VDBCommandKind::PING => 5,
            VDBCommandKind::DISCONNECT => 6,
        }
    }

    pub fn from_u8(b: u8) -> (k: Option<VDBCommandKind>)
        ensures
            k == VDBCommandKind::from_code(b),
    {
        if b == 0 {
            Some(VDBCommandKind::UNKNOWN)
        } else if b == 1 {
            Some(VDBCommandKind::INSERT)
        } else if b == 2 {
            Some(VDBCommandKind::UPDATE)
        } else if b == 3 {
            Some(VDBCommandKind::DELETE)
        } else if b == 5 {
            Some(VDBCommandKind::PING)
        } else if b == 6 {
            Some(VDBCommandKind::DISCONNECT)
        } else {
            None
        }
    }

    /// The kind the server reads from a received byte.
    pub fn from_byte(b: u8) -> (k: VDBCommandKind)
        ensures
            k == VDBCommandKind::of_byte(b),
    {
        match VDBCommandKind::from_u8(b) {
            Some(k) => k,
            None => VDBCommandKind::UNKNOWN,
        }
    }
}

/// The outcome of a request, sent back as a two-byte code.
#[derive(Clone, Copy, Debug, PartialEq, Eq, Structural)]
pub enum VDBOpResultCode {
    OK,
    InvalidPayload,
    CommandNotImplemented,
    UnknownCommand,
}

impl VDBOpResultCode {
    /// The number that stands for this outcome on the wire.
    pub open spec fn code(self) -> u16 {
        match self {
            VDBOpResultCode::OK => 0,
            VDBOpResultCode::InvalidPayload => 1,
            VDBOpResultCode::CommandNotImplemented => 2,
            VDBOpResultCode::UnknownCommand => 3,
        }
    }

    /// The outcome that a number stands for, if any.
    pub open spec fn from_code(n: u16) -> Option<VDBOpResultCode> {
        if n == 0 {
            Some(VDBOpResultCode::OK)
        } else if n == 1 {
            Some(VDBOpResultCode::InvalidPayload)
        } else if n == 2 {
            Some(VDBOpResultCode::CommandNotImplemented)
        } else if n == 3 {
            Some(VDBOpResultCode::UnknownCommand)
        } else {
            None
        }
    }

    pub fn to_u16(self) -> (n: u16)
        ensures
            n == self.code(),
    {
        match self {
            VDBOpResultCode::OK => 0,
            VDBOpResultCode::InvalidPayload => 1,
            VDBOpResultCode::CommandNotImplemented => 2,
            VDBOpResultCode::UnknownCommand => 3,
        }
    }

    pub fn from_u16(n: u16) -> (r: Option<VDBOpResultCode>)
        ensures
            r == VDBOpResultCode::from_code(n),
    {
        if n == 0 {
            Some(VDBOpResultCode::OK)
        } else if n == 1 {
            Some(VDBOpResultCode::InvalidPayload)
        } else if n == 2 {
            Some(VDBOpResultCode::CommandNotImplemented)
        } else if n == 3 {
            Some(VDBOpResultCode::UnknownCommand)
        } else {
            None
        }
    }
}

/// Converting a kind to its byte and back gives the kind again.
pub proof fn lemma_command_kind_code_roundtrip(k: VDBCommandKind)
    ensures
        VDBCommandKind::from_code(k.code()) == Some(k),
        VDBCommandKind::of_byte(k.code()) == k,
{
}

/// A byte that stands for a kind is that kind's byte.
pub proof fn lemma_command_kind_from_code(b: u8)
    ensures
        VDBCommandKind::from_code(b) matches Some(k) ==> k.code() == b,
{
}

/// Converting an outcome to its number and back gives the outcome again,
/// and a number that stands for an outcome is that outcome's number.
pub proof fn lemma_result_code_roundtrip(c: VDBOpResultCode, n: u16)
    ensures
        VDBOpResultCode::from_code(c.code()) == Some(c),
        VDBOpResultCode::from_code(n) matches Some(d) ==> d.code() == n,
{
}

/// Whether a command of the kind with this byte carries a payload: all but `PING` and `DISCONNECT` do.
pub open spec fn carries_payload(kind: u8) -> bool {
    kind != VDBCommandKind::PING.code() && kind != VDBCommandKind::DISCONNECT.code()
}

pub fn command_carry_payload(kind: u8) -> (b: bool)
    ensures
        b == carries_payload(kind),
{
    kind != VDBCommandKind::PING.to_u8() && kind != VDBCommandKind::DISCONNECT.to_u8()
}

/// A command from client to server.
#[derive(Clone, Debug, PartialEq, Eq)]
pub struct VDBCommand {
    pub kind: VDBCommandKind,
    pub payload: Vec<u8>,
}

impl View for VDBCommand {
    type V = (VDBCommandKind, Seq<u8>);

    open spec fn view(&self) -> (VDBCommandKind, Seq<u8>) {
        (self.kind, self.payload@)
    }
}

/// A response from server to client, with its result code as received.
#[derive(Clone, Debug, PartialEq, Eq)]
pub struct ResponseFrame {
    pub code: u16,
    pub payload: Vec<u8>,
}

impl View for ResponseFrame {
    type V = (u16, Seq<u8>);

    open spec fn view(&self) -> (u16, Seq<u8>) {
        (self.code, self.payload@)
    }
}

/// What the bytes received so far make of a frame.
pub enum FrameParse<T> {
    /// This many more bytes are needed before decoding can go on.
    NeedMore(nat),
    /// A whole frame of this many bytes, holding this value.
    Complete(nat, T),
}

/// The executable counterpart of [`FrameParse`].
#[derive(Clone, Debug, PartialEq, Eq)]
pub enum Decoded<T> {
    NeedMore(usize),
    Complete(usize, T),
}

impl<T: View> View for Decoded<T> {
    type V = FrameParse<T::V>;

    open spec fn view(&self) -> FrameParse<T::V> {
        match self {
            Decoded::NeedMore(k) => FrameParse::NeedMore(*k as nat),
            Decoded::Complete(n, v) => FrameParse::Complete(*n as nat, v@),
        }
    }
}

/// A body preceded by its length as four network-order bytes.  A body longer
/// than `u32::MAX` bytes has its length written modulo 2^32.
pub open spec fn sized_frame(body: Seq<u8>) -> Seq<u8> {
    be_u32_bytes(body.len() as u32) + body
}

/// The bytes a client sends for a command of kind `kind` with payload `payload`.
pub open spec fn command_frame(kind: VDBCommandKind, payload: Seq<u8>) -> Seq<u8> {
    if carries_payload(kind.code()) {
        seq![kind.code()] + sized_frame(payload)
    } else {
        seq![kind.code()]
    }
}

/// The bytes a server sends for a response with result code `code`.
pub open spec fn response_frame(code: u16, payload: Seq<u8>) -> Seq<u8> {
    be_u16_bytes(code) + sized_frame(payload)
}

/// The three bytes "VDB" that open every connection.
pub open spec fn protocol_magic() -> Seq<u8> {
    seq![0x56u8, 0x44u8, 0x42u8]
}

/// The bytes a client sends to open a connection, `info` being its serialized description.
pub open spec fn handshake_request_frame(info: Seq<u8>) -> Seq<u8> {
    protocol_magic() + sized_frame(info)
}

/// The bytes a server answers a handshake with, `info` being its serialized description.
pub open spec fn handshake_reply_frame(info: Seq<u8>) -> Seq<u8> {
    sized_frame(info)
}

/// Decoding a length-prefixed body that starts at `start`.
pub open spec fn parse_sized(s: Seq<u8>, start: nat) -> FrameParse<Seq<u8>> {
    if s.len() < start + 4 {
        FrameParse::NeedMore((start + 4 - s.len()) as nat)
    } else {
        let size = be_u32_value(s.subrange(start as int, start + 4int));
        if s.len() < start + 4 + size {
            FrameParse::NeedMore((start + 4 + size - s.len()) as nat)
        } else {
            FrameParse::Complete(
                (start + 4 + size) as nat,
                s.subrange(start + 4int, start + 4 + size),
            )
        }
    }
}

/// Decoding a command: its kind byte, then, for kinds that carry one, a length-prefixed payload.
pub open spec fn parse_command(s: Seq<u8>) -> FrameParse<(VDBCommandKind, Seq<u8>)> {
    if s.len() < 1 {
        FrameParse::NeedMore(1)
    } else {
        let kind = VDBCommandKind::of_byte(s[0]);
        if !carries_payload(kind.code()) {
            FrameParse::Complete(1, (kind, Seq::empty()))
        } else {
            match parse_sized(s, 1) {
                FrameParse::NeedMore(k) => FrameParse::NeedMore(k),
                FrameParse::Complete(n, p) => FrameParse::Complete(n, (kind, p)),
            }
        }
    }
}

/// Decoding a response: a two-byte result code, then a length-prefixed payload.
pub open spec fn parse_response(s: Seq<u8>) -> FrameParse<(u16, Seq<u8>)> {
    if s.len() < 2 {
        FrameParse::NeedMore((2 - s.len()) as nat)
    } else {
        match parse_sized(s, 2) {
            FrameParse::NeedMore(k) => FrameParse::NeedMore(k),
            FrameParse::Complete(n, p) => FrameParse::Complete(
                n,
                (be_u16_value(s) as u16, p),
            ),
        }
    }
}

/// Whether the bytes received hold a first three bytes other than "VDB".
pub open spec fn wrong_magic(s: Seq<u8>) -> bool {
    s.len() >= 3 && s.subrange(0, 3) != protocol_magic()
}

/// Decoding a handshake request whose first bytes are not known to be wrong.
pub open spec fn parse_handshake_request(s: Seq<u8>) -> FrameParse<Seq<u8>> {
    if s.len() < 3 {
        FrameParse::NeedMore((3 - s.len()) as nat)
    } else {
        parse_sized(s, 3)
    }
}

/// Decoding a handshake reply.
pub open spec fn parse_handshake_reply(s: Seq<u8>) -> FrameParse<Seq<u8>> {
    parse_sized(s, 0)
}

/// Decodes the length-prefixed body that starts at `start` in `buf`.
pub fn decode_sized(buf: &[u8], start: usize) -> (r: Decoded<Vec<u8>>)
    requires
        start <= buf@.len(),
    ensures
        r@ == parse_sized(buf@, start as nat),
        r matches Decoded::NeedMore(k) ==> k > 0,
{
    if buf.len() - start < 4 {
        return Decoded::NeedMore(4 - (buf.len() - start));
    }
    let size = read_u32_be(buf, start) as usize;
    let avail = buf.len() - start - 4;
    if avail < size {
        Decoded::NeedMore(size - avail)
    } else {
        let end = start + 4 + size;
        Decoded::Complete(end, copy_range(buf, start + 4, end))
    }
}

/// Decodes a command from the bytes received so far.
pub fn decode_command(buf: &[u8]) -> (r: Decoded<VDBCommand>)
    ensures
        r@ == parse_command(buf@),
        r matches Decoded::NeedMore(k) ==> k > 0,
{
    if buf.len() < 1 {
        return Decoded::NeedMore(1);
    }
    let kind = VDBCommandKind::from_byte(buf[0]);
    if !command_carry_payload(kind.to_u8()) {
        let cmd = VDBCommand { kind, payload: Vec::new() };
        assert(cmd.payload@ =~= Seq::<u8>::empty());
        return Decoded::Complete(1, cmd);
    }
    match decode_sized(buf, 1) {
        Decoded::NeedMore(k) => Decoded::NeedMore(k),
        Decoded::Complete(n, payload) => Decoded::Complete(n, VDBCommand { kind, payload }),
    }
}

/// Decodes a response from the bytes received so far.
pub fn decode_response(buf: &[u8]) -> (r: Decoded<ResponseFrame>)
    ensures
        r@ == parse_response(buf@),
        r matches Decoded::NeedMore(k) ==> k > 0,
{
    if buf.len() < 2 {
        return Decoded::NeedMore(2 - buf.len());
    }
    let code = read_u16_be(buf, 0);
    assert(buf@.subrange(0, 2)[0] == buf@[0] && buf@.subrange(0, 2)[1] == buf@[1]);
    match decode_sized(buf, 2) {
        Decoded::NeedMore(k) => Decoded::NeedMore(k),
        Decoded::Complete(n, payload) => Decoded::Complete(n, ResponseFrame { code, payload }),
    }
}

/// Decodes the reply to a handshake from the bytes received so far.
pub fn decode_handshake_reply(buf: &[u8]) -> (r: Decoded<Vec<u8>>)
    ensures
        r@ == parse_handshake_reply(buf@),
        r matches Decoded::NeedMore(k) ==> k > 0,
{
    decode_sized(buf, 0)
}

/// The message with which a server refuses a connection whose first three bytes are `header`.
pub open spec fn unknown_protocol_message(header: Seq<u8>) -> Seq<char> {
    "Unknown protocol, expected VDB got "@ + lossy_text(header)
}

/// Decodes a handshake request from the bytes received so far.  Once three
/// bytes have arrived that are not "VDB", the request is refused with the
/// message the server reports.
pub fn decode_handshake_request(buf: &[u8]) -> (r: Result<Decoded<Vec<u8>>, String>)
    ensures
        r is Err <==> wrong_magic(buf@),
        r matches Err(m) ==> m@ == unknown_protocol_message(buf@.subrange(0, 3)),
        r matches Ok(d) ==> d@ == parse_handshake_request(buf@),
        r matches Ok(Decoded::NeedMore(k)) ==> k > 0,
{
    if buf.len() < 3 {
        return Ok(Decoded::NeedMore(3 - buf.len()));
    }
    if buf[0] != 0x56u8 || buf[1] != 0x44u8 || buf[2] != 0x42u8 {
        let header = copy_range(buf, 0, 3);
        let mut message = String::from_str("Unknown protocol, expected VDB got ");
        let got = lossy_string(header.as_slice());
        message.append(got.as_str());
        return Err(message);
    }
    assert(buf@.subrange(0, 3) =~= protocol_magic());
    Ok(decode_sized(buf, 3))
}

/// The bytes a client sends for `cmd`.
pub fn encode_command(cmd: &VDBCommand) -> (bytes: Vec<u8>)
    ensures
        bytes@ == command_frame(cmd.kind, cmd.payload@),
{
    let mut out: Vec<u8> = Vec::new();
    let code = cmd.kind.to_u8();
    out.push(code);
    if command_carry_payload(code) {
        push_u32_be(&mut out, cmd.payload.len() as u32);
        push_bytes(&mut out, cmd.payload.as_slice());
    }
    assert(out@ =~= command_frame(cmd.kind, cmd.payload@));
    out
}

/// The bytes a server sends for a response with result `code` and `payload`.
pub fn encode_response(code: VDBOpResultCode, payload: &[u8]) -> (bytes: Vec<u8>)
    ensures
        bytes@ == response_frame(code.code(), payload@),
{
    let mut out: Vec<u8> = Vec::new();
    push_u16_be(&mut out, code.to_u16());
    push_u32_be(&mut out, payload.len() as u32);
    push_bytes(&mut out, payload);
    assert(out@ =~= response_frame(code.code(), payload@));
    out
}

/// The bytes a client sends to open a connection, `info` being its serialized description.
pub fn encode_handshake_request(info: &[u8]) -> (bytes: Vec<u8>)
    ensures
        bytes@ == handshake_request_frame(info@),
{
    let mut out: Vec<u8> = Vec::new();
    out.push(0x56u8);
    out.push(0x44u8);
    out.push(0x42u8);
    push_u32_be(&mut out, info.len() as u32);
    push_bytes(&mut out, info);
    assert(out@ =~= handshake_request_frame(info@));
    out
}

/// The bytes a server answers a handshake with, `info` being its serialized description.
pub fn encode_handshake_reply(info: &[u8]) -> (bytes: Vec<u8>)
    ensures
        bytes@ == handshake_reply_frame(info@),
{
    let mut out: Vec<u8> = Vec::new();
    push_u32_be(&mut out, info.len() as u32);
    push_bytes(&mut out, info);
    assert(out@ =~= handshake_reply_frame(info@));
    out
}

/// A length-prefixed body written after `head` decodes to that body and takes
/// exactly the frame's bytes, whatever follows it.
pub proof fn lemma_sized_roundtrip(head: Seq<u8>, body: Seq<u8>, rest: Seq<u8>)
    requires
        body.len() <= u32::MAX,
    ensures
        parse_sized(head + sized_frame(body) + rest, head.len()) == FrameParse::Complete(
            head.len() + 4 + body.len(),
            body,
        ),
{
    let s = head + sized_frame(body) + rest;
    let st = head.len() as int;
    assert(s.subrange(st, st + 4) =~= be_u32_bytes(body.len() as u32));
    lemma_be_u32_roundtrip(body.len() as u32);
    assert(s.subrange(st + 4, st + 4 + body.len()) =~= body);
}

/// While only part of a length-prefixed frame has arrived, decoding asks for
/// more bytes, and never for more than the rest of the frame.
pub proof fn lemma_sized_prefix(head: Seq<u8>, body: Seq<u8>, n: nat)
    requires
        body.len() <= u32::MAX,
        head.len() <= n < head.len() + 4 + body.len(),
    ensures
        parse_sized((head + sized_frame(body)).take(n as int), head.len()) matches FrameParse::NeedMore(k)
            && 0 < k && n + k <= head.len() + 4 + body.len(),
{
    let f = head + sized_frame(body);
    let p = f.take(n as int);
    let st = head.len() as int;
    if n >= st + 4 {
        assert(p.subrange(st, st + 4) =~= be_u32_bytes(body.len() as u32));
        lemma_be_u32_roundtrip(body.len() as u32);
    }
}

/// A length-prefixed body that decodes completely is written back as the same bytes.
pub proof fn lemma_sized_reencode(s: Seq<u8>, start: nat)
    requires
        start <= s.len(),
        parse_sized(s, start) is Complete,
    ensures
        parse_sized(s, start) matches FrameParse::Complete(n, body) && body.len() <= u32::MAX
            && s.take(n as int) == s.take(start as int) + sized_frame(body),
{
    let st = start as int;
    let size = be_u32_value(s.subrange(st, st + 4));
    lemma_be_u32_bytes_of_value(s.subrange(st, st + 4));
    let body = s.subrange(st + 4, st + 4 + size);
    assert(s.take(st + 4 + size) =~= s.take(st) + sized_frame(body));
}

/// Law: a command's bytes decode to the command (a kind without payload
/// decodes with an empty one), taking exactly its bytes, whatever follows.
pub proof fn lemma_command_roundtrip(kind: VDBCommandKind, payload: Seq<u8>, rest: Seq<u8>)
    requires
        carries_payload(kind.code()) ==> payload.len() <= u32::MAX,
    ensures
        parse_command(command_frame(kind, payload) + rest) == FrameParse::Complete(
            command_frame(kind, payload).len(),
            (kind, if carries_payload(kind.code()) { payload } else { Seq::empty() }),
        ),
{
    let s = command_frame(kind, payload) + rest;
    assert(s[0] == kind.code());
    lemma_command_kind_code_roundtrip(kind);
    if carries_payload(kind.code()) {
        lemma_sized_roundtrip(seq![kind.code()], payload, rest);
        assert(s =~= seq![kind.code()] + sized_frame(payload) + rest);
    }
}

/// Law: while only part of a command's bytes has arrived, decoding asks for
/// more, and never for more than the rest of the command.
pub proof fn lemma_command_prefix(kind: VDBCommandKind, payload: Seq<u8>, n: nat)
    requires
        carries_payload(kind.code()) ==> payload.len() <= u32::MAX,
        n < command_frame(kind, payload).len(),
    ensures
        parse_command(command_frame(kind, payload).take(n as int)) matches FrameParse::NeedMore(k)
            && 0 < k && n + k <= command_frame(kind, payload).len(),
{
    let f = command_frame(kind, payload);
    let p = f.take(n as int);
    lemma_command_kind_code_roundtrip(kind);
    if n > 0 {
        assert(p[0] == kind.code());
        lemma_sized_prefix(seq![kind.code()], payload, n);
    }
}

/// Law: a command that decodes from a byte that names its kind is written
/// back as the same bytes.
pub proof fn lemma_command_reencode(s: Seq<u8>)
    requires
        parse_command(s) is Complete,
        VDBCommandKind::from_code(s[0]) is Some,
    ensures
        parse_command(s) matches FrameParse::Complete(n, (kind, payload))
            && s.take(n as int) == command_frame(kind, payload),
{
    lemma_command_kind_from_code(s[0]);
    let kind = VDBCommandKind::of_byte(s[0]);
    if carries_payload(kind.code()) {
        lemma_sized_reencode(s, 1);
        assert(s.take(1) =~= seq![kind.code()]);
    } else {
        assert(s.take(1) =~= seq![kind.code()]);
    }
}

/// Law: a response's bytes decode to its result code and payload, taking
/// exactly its bytes, whatever follows.
pub proof fn lemma_response_roundtrip(code: u16, payload: Seq<u8>, rest: Seq<u8>)
    requires
        payload.len() <= u32::MAX,
    ensures
        parse_response(response_frame(code, payload) + rest) == FrameParse::Complete(
            response_frame(code, payload).len(),
            (code, payload),
        ),
{
    let h = be_u16_bytes(code);
    let s = h + sized_frame(payload) + rest;
    assert(response_frame(code, payload) + rest == s);
    lemma_sized_roundtrip(h, payload, rest);
    lemma_be_u16_prefix(code, sized_frame(payload) + rest);
    assert(s =~= h + (sized_frame(payload) + rest));
}

/// The first two bytes of a sequence that opens with `code` in network order denote `code`.
proof fn lemma_be_u16_prefix(code: u16, tail: Seq<u8>)
    ensures
        be_u16_value(be_u16_bytes(code) + tail) == code,
{
    let h = be_u16_bytes(code);
    lemma_be_u16_roundtrip(code);
    assert((h + tail)[0] == h[0] && (h + tail)[1] == h[1]);
}

/// Law: while only part of a response's bytes has arrived, decoding asks for
/// more, and never for more than the rest of the response.
pub proof fn lemma_response_prefix(code: u16, payload: Seq<u8>, n: nat)
    requires
        payload.len() <= u32::MAX,
        n < response_frame(code, payload).len(),
    ensures
        parse_response(response_frame(code, payload).take(n as int)) matches FrameParse::NeedMore(k)
            && 0 < k && n + k <= response_frame(code, payload).len(),
{
    if n >= 2 {
        lemma_sized_prefix(be_u16_bytes(code), payload, n);
    }
}

/// Law: a response that decodes completely is written back as the same bytes.
pub proof fn lemma_response_reencode(s: Seq<u8>)
    requires
        parse_response(s) is Complete,
    ensures
        parse_response(s) matches FrameParse::Complete(n, (code, payload))
            && s.take(n as int) == response_frame(code, payload),
{
    lemma_sized_reencode(s, 2);
    lemma_be_u16_bytes_of_value(s.take(2));
    assert(s.take(2) =~= be_u16_bytes(be_u16_value(s) as u16));
}

/// Law: a handshake request's bytes open with the right magic and decode to the
/// serialized description it carries, taking exactly its bytes, whatever follows.
#[verifier::spinoff_prover]
pub proof fn lemma_handshake_request_roundtrip(info: Seq<u8>, rest: Seq<u8>)
    requires
        info.len() <= u32::MAX,
    ensures
        !wrong_magic(handshake_request_frame(info) + rest),
        parse_handshake_request(handshake_request_frame(info) + rest) == FrameParse::Complete(
            handshake_request_frame(info).len(),
            info,
        ),
{
    let s = handshake_request_frame(info) + rest;
    assert(s.subrange(0, 3) =~= protocol_magic());
    lemma_sized_roundtrip(protocol_magic(), info, rest);
}

/// Law: while only part of a handshake request has arrived, its bytes are not
/// taken for a wrong protocol, and decoding asks for more, never for more than
/// the rest of the request.
pub proof fn lemma_handshake_request_prefix(info: Seq<u8>, n: nat)
    requires
        info.len() <= u32::MAX,
        n < handshake_request_frame(info).len(),
    ensures
        !wrong_magic(handshake_request_frame(info).take(n as int)),
        parse_handshake_request(handshake_request_frame(info).take(n as int)) matches FrameParse::NeedMore(k)
            && 0 < k && n + k <= handshake_request_frame(info).len(),
{
    let p = handshake_request_frame(info).take(n as int);
    if n >= 3 {
        assert(p.subrange(0, 3) =~= protocol_magic());
        lemma_sized_prefix(protocol_magic(), info, n);
    }
}

/// Law: a handshake request that decodes completely is written back as the same bytes.
pub proof fn lemma_handshake_request_reencode(s: Seq<u8>)
    requires
        !wrong_magic(s),
        parse_handshake_request(s) is Complete,
    ensures
        parse_handshake_request(s) matches FrameParse::Complete(n, info)
            && s.take(n as int) == handshake_request_frame(info),
{
    lemma_sized_reencode(s, 3);
}

/// Law: a handshake reply's bytes decode to the serialized description it
/// carries, taking exactly its bytes, whatever follows.
pub proof fn lemma_handshake_reply_roundtrip(info: Seq<u8>, rest: Seq<u8>)
    requires
        info.len() <= u32::MAX,
    ensures
        parse_handshake_reply(handshake_reply_frame(info) + rest) == FrameParse::Complete(
            handshake_reply_frame(info).len(),
            info,
        ),
{
    lemma_sized_roundtrip(Seq::empty(), info, rest);
    assert(Seq::<u8>::empty() + sized_frame(info) + rest =~= handshake_reply_frame(info) + rest);
}

/// Law: while only part of a handshake reply has arrived, decoding asks for
/// more, never for more than the rest of the reply.
pub proof fn lemma_handshake_reply_prefix(info: Seq<u8>, n: nat)
    requires
        info.len() <= u32::MAX,
        n < handshake_reply_frame(info).len(),
    ensures
        parse_handshake_reply(handshake_reply_frame(info).take(n as int)) matches FrameParse::NeedMore(k)
            && 0 < k && n + k <= handshake_reply_frame(info).len(),
{
    lemma_sized_prefix(Seq::empty(), info, n);
    assert(Seq::<u8>::empty() + sized_frame(info) =~= handshake_reply_frame(info));
}

/// Law: a handshake reply that decodes completely is written back as the same bytes.
pub proof fn lemma_handshake_reply_reencode(s: Seq<u8>)
    requires
        parse_handshake_reply(s) is Complete,
    ensures
        parse_handshake_reply(s) matches FrameParse::Complete(n, info)
            && s.take(n as int) == handshake_reply_frame(info),
{
    lemma_sized_reencode(s, 0);
    assert(s.take(0) =~= Seq::<u8>::empty());
    assert(Seq::<u8>::empty() + sized_frame(parse_handshake_reply(s)->Complete_1) =~= sized_frame(parse_handshake_reply(s)->Complete_1));
}

/// A length-prefixed body that has arrived whole decodes the same way
/// whatever arrives after it.
pub proof fn lemma_sized_extend(s: Seq<u8>, start: nat, t: Seq<u8>)
    requires
        parse_sized(s, start) is Complete,
    ensures
        parse_sized(s + t, start) == parse_sized(s, start),
{
    let st = start as int;
    assert((s + t).subrange(st, st + 4) =~= s.subrange(st, st + 4));
    let size = be_u32_value(s.subrange(st, st + 4));
    assert((s + t).subrange(st + 4, st + 4 + size) =~= s.subrange(st + 4, st + 4 + size));
}

/// Law: a command that has arrived whole decodes the same way whatever
/// arrives after it.
pub proof fn lemma_command_extend(s: Seq<u8>, t: Seq<u8>)
    requires
        parse_command(s) is Complete,
    ensures
        parse_command(s + t) == parse_command(s),
{
    assert((s + t)[0] == s[0]);
    if carries_payload(VDBCommandKind::of_byte(s[0]).code()) {
        lemma_sized_extend(s, 1, t);
    }
}

/// Law: a response that has arrived whole decodes the same way whatever
/// arrives after it.
pub proof fn lemma_response_extend(s: Seq<u8>, t: Seq<u8>)
    requires
        parse_response(s) is Complete,
    ensures
        parse_response(s + t) == parse_response(s),
{
    assert((s + t)[0] == s[0] && (s + t)[1] == s[1]);
    lemma_sized_extend(s, 2, t);
}

/// Law: whether a handshake request opens with the wrong bytes is settled by
/// its first three bytes, and a request that has arrived whole decodes the
/// same way whatever arrives after it.
pub proof fn lemma_handshake_request_extend(s: Seq<u8>, t: Seq<u8>)
    requires
        s.len() >= 3,
    ensures
        wrong_magic(s + t) == wrong_magic(s),
        parse_handshake_request(s) is Complete ==> parse_handshake_request(s + t)
            == parse_handshake_request(s),
{
    assert((s + t).subrange(0, 3) =~= s.subrange(0, 3));
    if parse_handshake_request(s) is Complete {
        lemma_sized_extend(s, 3, t);
    }
}

/// Law: a handshake reply that has arrived whole decodes the same way
/// whatever arrives after it.
pub proof fn lemma_handshake_reply_extend(s: Seq<u8>, t: Seq<u8>)
    requires
        parse_handshake_reply(s) is Complete,
    ensures
        parse_handshake_reply(s + t) == parse_handshake_reply(s),
{
    lemma_sized_extend(s, 0, t);
}

/// Law: a command's bytes are its kind byte, then, for every kind but `PING`
/// and `DISCONNECT`, the payload's length as four bytes with the most
/// significant first, then the payload itself.
pub proof fn lemma_command_frame_layout(kind: VDBCommandKind, payload: Seq<u8>)
    requires
        payload.len() <= u32::MAX,
    ensures
        command_frame(kind, payload)[0] == kind.code(),
        kind == VDBCommandKind::PING || kind == VDBCommandKind::DISCONNECT ==> command_frame(
            kind,
            payload,
        ).len() == 1,
        kind != VDBCommandKind::PING && kind != VDBCommandKind::DISCONNECT ==> {
            let f = command_frame(kind, payload);
            &&& f.len() == 5 + payload.len()
            &&& network_u32(f[1], f[2], f[3], f[4]) == payload.len()
            &&& f.subrange(5, f.len() as int) == payload
        },
{
    let f = command_frame(kind, payload);
    if carries_payload(kind.code()) {
        lemma_be_u32_roundtrip(payload.len() as u32);
        assert(f.subrange(5, f.len() as int) =~= payload);
    }
}

/// Law: a response's bytes are its result code as two bytes with the most
/// significant first, the payload's length as four such bytes, then the payload.
pub proof fn lemma_response_frame_layout(code: u16, payload: Seq<u8>)
    requires
        payload.len() <= u32::MAX,
    ensures
        ({
            let f = response_frame(code, payload);
            &&& f.len() == 6 + payload.len()
            &&& f[0] * 256 + f[1] == code
            &&& network_u32(f[2], f[3], f[4], f[5]) == payload.len()
            &&& f.subrange(6, f.len() as int) == payload
        }),
{
    let f = response_frame(code, payload);
    lemma_be_u16_roundtrip(code);
    lemma_be_u32_roundtrip(payload.len() as u32);
    assert(f.subrange(6, f.len() as int) =~= payload);
}

/// Law: a handshake request's bytes are 'V', 'D', 'B', the description's
/// length as four bytes with the most significant first, then the description;
/// a handshake reply is the same without the three letters.
pub proof fn lemma_handshake_frame_layout(info: Seq<u8>)
    requires
        info.len() <= u32::MAX,
    ensures
        ({
            let f = handshake_request_frame(info);
            &&& f.len() == 7 + info.len()
            &&& f[0] == 0x56 && f[1] == 0x44 && f[2] == 0x42
            &&& network_u32(f[3], f[4], f[5], f[6]) == info.len()
            &&& f.subrange(7, f.len() as int) == info
        }),
        ({
            let f = handshake_reply_frame(info);
            &&& f.len() == 4 + info.len()
            &&& network_u32(f[0], f[1], f[2], f[3]) == info.len()
            &&& f.subrange(4, f.len() as int) == info
        }),
{
    lemma_be_u32_roundtrip(info.len() as u32);
    assert(handshake_request_frame(info).subrange(7, 7 + info.len() as int) =~= info);
    assert(handshake_reply_frame(info).subrange(4, 4 + info.len() as int) =~= info);
}

/// Law: how received bytes decode as a command.  The first byte names the
/// kind; a `PING` (5) or `DISCONNECT` (6) is that one byte.  Any other kind
/// is followed by a length N in four bytes, most significant first, and then
/// N payload bytes; until all have arrived the decoder asks for exactly the
/// missing ones.
pub proof fn lemma_command_decode_layout(s: Seq<u8>)
    ensures
        s.len() == 0 ==> parse_command(s) == FrameParse::<(VDBCommandKind, Seq<u8>)>::NeedMore(1),
        s.len() >= 1 && (s[0] == 5 || s[0] == 6) ==> parse_command(s) == FrameParse::Complete(
            1,
            (VDBCommandKind::of_byte(s[0]), Seq::<u8>::empty()),
        ),
        1 <= s.len() < 5 && s[0] != 5 && s[0] != 6 ==> parse_command(s)
            == FrameParse::<(VDBCommandKind, Seq<u8>)>::NeedMore((5 - s.len()) as nat),
        s.len() >= 5 && s[0] != 5 && s[0] != 6 ==> {
            let n = network_u32(s[1], s[2], s[3], s[4]);
            &&& s.len() < 5 + n ==> parse_command(s) == FrameParse::<
                (VDBCommandKind, Seq<u8>),
            >::NeedMore((5 + n - s.len()) as nat)
            &&& s.len() >= 5 + n ==> parse_command(s) == FrameParse::Complete(
                (5 + n) as nat,
                (VDBCommandKind::of_byte(s[0]), s.subrange(5, 5 + n)),
            )
        },
{
}

/// Law: how received bytes decode as a response: a result code in two bytes,
/// most significant first, then a length N in four bytes, most significant
/// first, then N payload bytes; until all have arrived the decoder asks for
/// exactly the missing ones.
pub proof fn lemma_response_decode_layout(s: Seq<u8>)
    ensures
        s.len() < 2 ==> parse_response(s) == FrameParse::<(u16, Seq<u8>)>::NeedMore(
            (2 - s.len()) as nat,
        ),
        2 <= s.len() < 6 ==> parse_response(s) == FrameParse::<(u16, Seq<u8>)>::NeedMore(
            (6 - s.len()) as nat,
        ),
        s.len() >= 6 ==> {
            let n = network_u32(s[2], s[3], s[4], s[5]);
            &&& s.len() < 6 + n ==> parse_response(s) == FrameParse::<(u16, Seq<u8>)>::NeedMore(
                (6 + n - s.len()) as nat,
            )
            &&& s.len() >= 6 + n ==> (parse_response(s) matches FrameParse::Complete(m, (code, p))
                && m == 6 + n && code == s[0] * 256 + s[1] && p == s.subrange(6, 6 + n))
        },
{
}

/// Law: how received bytes decode as a handshake request: three bytes that
/// must be 'V', 'D', 'B' (any other three are refused), then a length N in
/// four bytes, most significant first, then N bytes of description; until
/// all have arrived the decoder asks for exactly the missing ones.
pub proof fn lemma_handshake_request_decode_layout(s: Seq<u8>)
    ensures
        s.len() < 3 ==> !wrong_magic(s) && parse_handshake_request(s) == FrameParse::<
            Seq<u8>,
        >::NeedMore((3 - s.len()) as nat),
        s.len() >= 3 ==> (wrong_magic(s) <==> !(s[0] == 0x56 && s[1] == 0x44 && s[2] == 0x42)),
        3 <= s.len() < 7 ==> parse_handshake_request(s) == FrameParse::<Seq<u8>>::NeedMore(
            (7 - s.len()) as nat,
        ),
        s.len() >= 7 ==> {
            let n = network_u32(s[3], s[4], s[5], s[6]);
            &&& s.len() < 7 + n ==> parse_handshake_request(s) == FrameParse::<
                Seq<u8>,
            >::NeedMore((7 + n - s.len()) as nat)
            &&& s.len() >= 7 + n ==> parse_handshake_request(s) == FrameParse::Complete(
                (7 + n) as nat,
                s.subrange(7, 7 + n),
            )
        },
{
    if s.len() >= 3 {
        if s[0] == 0x56 && s[1] == 0x44 && s[2] == 0x42 {
            assert(s.subrange(0, 3) =~= protocol_magic());
        } else {
            assert(s.subrange(0, 3)[0] == s[0] && s.subrange(0, 3)[1] == s[1] && s.subrange(
                0,
                3,
            )[2] == s[2]);
        }
    }
}

/// Law: the bytes and numbers that stand for each command kind and each
/// result on the wire; no two kinds share a byte and no two results a number.
pub proof fn lemma_wire_codes()
    ensures
        VDBCommandKind::UNKNOWN.code() == 0,
        VDBCommandKind::INSERT.code() == 1,
        VDBCommandKind::UPDATE.code() == 2,
        VDBCommandKind::DELETE.code() == 3,
        VDBCommandKind::PING.code() == 5,
        VDBCommandKind::DISCONNECT.code() == 6,
        forall|a: VDBCommandKind, b: VDBCommandKind| a.code() == b.code() ==> a == b,
        forall|b: u8| b == 4 || b >= 7 ==> VDBCommandKind::of_byte(b) == VDBCommandKind::UNKNOWN,
        VDBOpResultCode::OK.code() == 0,
        VDBOpResultCode::InvalidPayload.code() == 1,
        VDBOpResultCode::CommandNotImplemented.code() == 2,
        VDBOpResultCode::UnknownCommand.code() == 3,
        forall|a: VDBOpResultCode, b: VDBOpResultCode| a.code() == b.code() ==> a == b,
{
}

} // verus!
