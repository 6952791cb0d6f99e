//! Laws about whole exchanges: what a client's request becomes at the server,
//! and what the server's answer becomes at the client.
use vstd::prelude::*;
use vstd::utf8::{
    encode_utf8_decode_utf8, encode_utf8_valid_utf8, is_ascii_chars,
    is_ascii_chars_encode_utf8,
};
use crate::client::{insert_response_of, ping_response_of, response_outcome_of};
use crate::foreign::{lossy_text, msgpack_value_error};
use crate::msgpack::msgpack_text_array;
use crate::protocol::{
    handshake_reply_frame, handshake_request_frame, lemma_handshake_reply_roundtrip,
    lemma_handshake_request_roundtrip, parse_handshake_reply, parse_handshake_request,
    peer_info_bytes, wrong_magic, VDBPeerInfo, command_frame, lemma_command_roundtrip, lemma_response_roundtrip, parse_command,
    parse_response, response_frame, FrameParse, VDBCommandKind, VDBOpResultCode,
};
use crate::server::{command_reply, invalid_command_message, pong_bytes, text_bytes};

verus! {

/// Law: a text the server sends arrives at the client as the same text.
pub proof fn lemma_text_roundtrip(text: Seq<char>)
    ensures
        lossy_text(text_bytes(text)) == text,
{
    encode_utf8_valid_utf8(text);
    encode_utf8_decode_utf8(text);
}

/// The answer to a ping is four bytes long.
proof fn lemma_pong_length()
    ensures
        pong_bytes().len() == 4,
{
    reveal_strlit("PONG");
    assert(is_ascii_chars("PONG"@));
    is_ascii_chars_encode_utf8("PONG"@);
}

/// Law: a ping reaches the server as a ping, which answers success with
/// "PONG"; the client reads that answer back whole and reports a successful
/// ping whose content is "PONG".  Whatever follows either frame on the
/// stream is left for the next read.
pub proof fn lemma_ping_exchange(after_command: Seq<u8>, after_response: Seq<u8>)
    ensures
        parse_command(command_frame(VDBCommandKind::PING, Seq::empty()) + after_command)
            == FrameParse::Complete(1, (VDBCommandKind::PING, Seq::<u8>::empty())),
        command_reply(VDBCommandKind::PING, Seq::empty()) == Some(
            (VDBOpResultCode::OK, pong_bytes()),
        ),
        parse_response(response_frame(VDBOpResultCode::OK.code(), pong_bytes()) + after_response)
            == FrameParse::Complete(10, (0u16, pong_bytes())),
        ping_response_of(response_outcome_of(0, pong_bytes())) == (
            true,
            "PONG"@,
            None::<Seq<char>>,
        ),
{
    lemma_command_roundtrip(VDBCommandKind::PING, Seq::empty(), after_command);
    lemma_pong_length();
    lemma_response_roundtrip(0, pong_bytes(), after_response);
    lemma_text_roundtrip("PONG"@);
}

/// Law: an insert reaches the server with its payload intact; the client then
/// reports success exactly when the payload is one message-pack value, and
/// otherwise an error that names the decoding failure.
pub proof fn lemma_insert_exchange(payload: Seq<u8>, after_command: Seq<u8>)
    requires
        payload.len() <= u32::MAX,
    ensures
        parse_command(command_frame(VDBCommandKind::INSERT, payload) + after_command)
            == FrameParse::Complete(
            command_frame(VDBCommandKind::INSERT, payload).len(),
            (VDBCommandKind::INSERT, payload),
        ),
        command_reply(VDBCommandKind::INSERT, payload) matches Some((code, body))
            && insert_response_of(response_outcome_of(code.code(), body)) == match msgpack_value_error(
            payload,
        ) {
            None => (true, None::<Seq<char>>),
            Some(error) => (false, Some("INVALID PAYLOAD: "@ + error)),
        },
{
    lemma_command_roundtrip(VDBCommandKind::INSERT, payload, after_command);
    match msgpack_value_error(payload) {
        None => {},
        Some(error) => {
            lemma_text_roundtrip("INVALID PAYLOAD: "@ + error);
        },
    }
}

/// Law: a disconnect reaches the server as a disconnect, which ends the
/// connection without an answer.
pub proof fn lemma_disconnect_exchange(after_command: Seq<u8>)
    ensures
        parse_command(command_frame(VDBCommandKind::DISCONNECT, Seq::empty()) + after_command)
            == FrameParse::Complete(1, (VDBCommandKind::DISCONNECT, Seq::<u8>::empty())),
        command_reply(VDBCommandKind::DISCONNECT, Seq::empty()) is None,
{
    lemma_command_roundtrip(VDBCommandKind::DISCONNECT, Seq::empty(), after_command);
}

/// Law: a command byte that names no kind is read as `UNKNOWN`, and the
/// client that sent it gets an error saying so, whatever the payload.
pub proof fn lemma_unknown_command_exchange(byte: u8, payload: Seq<u8>)
    requires
        VDBCommandKind::from_code(byte) is None,
    ensures
        parse_command(seq![byte]) is NeedMore,
        command_reply(VDBCommandKind::of_byte(byte), payload) == Some(
            (VDBOpResultCode::UnknownCommand, invalid_command_message("UNKNOWN"@)),
        ),
        response_outcome_of(
            VDBOpResultCode::UnknownCommand.code(),
            invalid_command_message("UNKNOWN"@),
        ) == Err::<Seq<u8>, Seq<char>>("INVALID COMMAND: "@ + "UNKNOWN"@),
{
    lemma_text_roundtrip("INVALID COMMAND: "@ + "UNKNOWN"@);
}

/// Law: the server reads from a handshake request exactly the message-pack
/// bytes of the client's own description, and the client reads from the reply
/// exactly those of the server's description, whatever follows either frame.
pub proof fn lemma_handshake_exchange(
    client: VDBPeerInfo,
    server_version: Seq<char>,
    after_request: Seq<u8>,
    after_reply: Seq<u8>,
)
    requires
        peer_info_bytes(client).len() <= u32::MAX,
        msgpack_text_array(seq![server_version, "VectorDB"@]).len() <= u32::MAX,
    ensures
        !wrong_magic(handshake_request_frame(peer_info_bytes(client)) + after_request),
        parse_handshake_request(handshake_request_frame(peer_info_bytes(client)) + after_request)
            == FrameParse::Complete(
            handshake_request_frame(peer_info_bytes(client)).len(),
            peer_info_bytes(client),
        ),
        parse_handshake_reply(
            handshake_reply_frame(msgpack_text_array(seq![server_version, "VectorDB"@]))
                + after_reply,
        ) == FrameParse::Complete(
            handshake_reply_frame(msgpack_text_array(seq![server_version, "VectorDB"@])).len(),
            msgpack_text_array(seq![server_version, "VectorDB"@]),
        ),
{
    lemma_handshake_request_roundtrip(peer_info_bytes(client), after_request);
    lemma_handshake_reply_roundtrip(
        msgpack_text_array(seq![server_version, "VectorDB"@]),
        after_reply,
    );
}

} // verus!
