use vectordb::client::{response_outcome, VDBAsyncClient, VDBInsertResponse, VDBPingResponse};
use vectordb::protocol::{
    decode_command, decode_handshake_reply, decode_handshake_request, decode_response,
    encode_command, encode_handshake_reply, encode_handshake_request, encode_response, Decoded,
};
use vectordb::server::{ServerAction, VDBConnection};
use vectordb::protocol::VDBPeerInfo;

fn serve(conn: &mut VDBConnection, wire: &[u8]) -> Option<Vec<u8>> {
    let cmd = match decode_command(wire) {
        Decoded::Complete(_, cmd) => cmd,
        Decoded::NeedMore(_) => panic!("incomplete command"),
    };
    match conn.on_command(&cmd) {
        ServerAction::Respond(code, payload) => Some(encode_response(code, &payload)),
        ServerAction::Disconnect => None,
    }
}

fn outcome(wire: &[u8]) -> Result<Vec<u8>, String> {
    match decode_response(wire) {
        Decoded::Complete(n, frame) => {
            assert_eq!(n, wire.len());
            response_outcome(frame)
        }
        Decoded::NeedMore(_) => panic!("incomplete response"),
    }
}

fn connected() -> VDBConnection {
    let mut conn = VDBConnection::new();
    conn.accept_client(VDBPeerInfo { version: "1".to_string(), app_name: "t".to_string() });
    conn
}

#[test]
fn handshake_bytes_arrive_intact() {
    let info = rmp_serde::to_vec(&("2024.9.1", "vectordb SDK")).unwrap();
    let request = encode_handshake_request(&info);
    assert_eq!(decode_handshake_request(&request), Ok(Decoded::Complete(request.len(), info)));
    let reply_info = rmp_serde::to_vec(&("2024.9.1", "VectorDB")).unwrap();
    let reply = encode_handshake_reply(&reply_info);
    assert_eq!(decode_handshake_reply(&reply), Decoded::Complete(reply.len(), reply_info));
}

#[test]
fn ping_exchange_reports_pong() {
    let mut conn = connected();
    let wire = encode_command(&VDBAsyncClient::ping_command());
    let answer = serve(&mut conn, &wire).unwrap();
    assert_eq!(
        VDBPingResponse::from_outcome(outcome(&answer)),
        VDBPingResponse { success: true, content: "PONG".to_string(), error: None }
    );
}

#[test]
fn insert_exchange_with_valid_payload() {
    let mut conn = connected();
    let payload = rmp_serde::to_vec_named(&vec![("id", 1u8)]).unwrap();
    let wire = encode_command(&VDBAsyncClient::insert_command(payload));
    let answer = serve(&mut conn, &wire).unwrap();
    assert_eq!(
        VDBInsertResponse::from_outcome(outcome(&answer)),
        VDBInsertResponse { success: true, error: None }
    );
}

#[test]
fn insert_exchange_with_invalid_payload() {
    let mut conn = connected();
    let payload = vec![0xc1u8];
    let wire = encode_command(&VDBAsyncClient::insert_command(payload.clone()));
    let answer = serve(&mut conn, &wire).unwrap();
    let error = format!("{:?}", rmp_serde::from_slice::<rmpv::Value>(&payload).unwrap_err());
    assert_eq!(
        VDBInsertResponse::from_outcome(outcome(&answer)),
        VDBInsertResponse { success: false, error: Some(format!("INVALID PAYLOAD: {}", error)) }
    );
}

#[test]
fn unknown_command_exchange() {
    let mut conn = connected();
    let answer = serve(&mut conn, &[42, 0, 0, 0, 0]).unwrap();
    assert_eq!(outcome(&answer), Err("INVALID COMMAND: UNKNOWN".to_string()));
}

#[test]
fn disconnect_exchange_sends_nothing() {
    let mut conn = connected();
    let wire = encode_command(&VDBAsyncClient::disconnect_command());
    assert_eq!(serve(&mut conn, &wire), None);
}

#[test]
fn delete_exchange_reports_deleted() {
    let mut conn = connected();
    let ids = vec!["efdsaa".to_string()];
    let wire = encode_command(&VDBAsyncClient::delete_command(&ids).unwrap());
    let answer = serve(&mut conn, &wire).unwrap();
    let response = vectordb::client::VDBDeleteResponse::from_outcome(outcome(&answer));
    assert_eq!(vectordb::cli::delete_report(ids.len(), &response), "1 documents deleted.");
}
