use vectordb::client::{
    client_peer_info, response_outcome, VDBAsyncClient, VDBInsertResponse, VDBPingResponse,
    VDBDeleteResponse, VDBUpdateResponse,
};
use vectordb::protocol::{ResponseFrame, VDBCommandKind, VDBPeerInfo};

#[test]
fn success_code_carries_the_payload() {
    let frame = ResponseFrame { code: 0, payload: b"PONG".to_vec() };
    assert_eq!(response_outcome(frame), Ok(b"PONG".to_vec()));
}

#[test]
fn error_code_carries_the_message() {
    let frame = ResponseFrame { code: 1, payload: b"INVALID PAYLOAD: x".to_vec() };
    assert_eq!(response_outcome(frame), Err("INVALID PAYLOAD: x".to_string()));
    let frame = ResponseFrame { code: 77, payload: vec![] };
    assert_eq!(response_outcome(frame), Err(String::new()));
}

#[test]
fn error_message_with_invalid_utf8_is_read_lossily() {
    let frame = ResponseFrame { code: 3, payload: vec![b'f', 0xff, b'g'] };
    assert_eq!(response_outcome(frame), Err("f\u{FFFD}g".to_string()));
}

#[test]
fn ping_response_from_success() {
    assert_eq!(
        VDBPingResponse::from_outcome(Ok(b"PONG".to_vec())),
        VDBPingResponse { success: true, content: "PONG".to_string(), error: None }
    );
    assert_eq!(
        VDBPingResponse::from_outcome(Ok(vec![0xf0, 0x9f, 0x98])),
        VDBPingResponse { success: true, content: "\u{FFFD}".to_string(), error: None }
    );
}

#[test]
fn ping_response_from_error() {
    assert_eq!(
        VDBPingResponse::from_outcome(Err("broken pipe".to_string())),
        VDBPingResponse {
            success: false,
            content: String::new(),
            error: Some("broken pipe".to_string())
        }
    );
}

#[test]
fn insert_response_from_outcomes() {
    assert_eq!(
        VDBInsertResponse::from_outcome(Ok(vec![1])),
        VDBInsertResponse { success: true, error: None }
    );
    assert_eq!(
        VDBInsertResponse::from_outcome(Err("INVALID PAYLOAD: y".to_string())),
        VDBInsertResponse { success: false, error: Some("INVALID PAYLOAD: y".to_string()) }
    );
}

#[test]
fn client_introduces_itself_as_sdk() {
    let info = client_peer_info("vectordb", "2024.9.1".to_string());
    assert_eq!(
        info,
        VDBPeerInfo { version: "2024.9.1".to_string(), app_name: "vectordb SDK".to_string() }
    );
}

#[test]
fn client_records_server_info() {
    let me = client_peer_info("vectordb", "1".to_string());
    let mut client = VDBAsyncClient::new(me.clone());
    assert!(client.server_info.is_none());
    let server = VDBPeerInfo { version: "1".to_string(), app_name: "VectorDB".to_string() };
    client.accept_server_info(server.clone());
    assert_eq!(client.server_info, Some(server));
    assert_eq!(client.info, me);
}

#[test]
fn client_commands() {
    let ping = VDBAsyncClient::ping_command();
    assert_eq!(ping.kind, VDBCommandKind::PING);
    assert!(ping.payload.is_empty());
    let insert = VDBAsyncClient::insert_command(vec![0x90]);
    assert_eq!(insert.kind, VDBCommandKind::INSERT);
    assert_eq!(insert.payload, vec![0x90]);
    let update = VDBAsyncClient::update_command(vec![0x91, 0xc0]);
    assert_eq!(update.kind, VDBCommandKind::UPDATE);
    assert_eq!(update.payload, vec![0x91, 0xc0]);
    let bye = VDBAsyncClient::disconnect_command();
    assert_eq!(bye.kind, VDBCommandKind::DISCONNECT);
    assert!(bye.payload.is_empty());
}

#[test]
fn update_response_from_outcomes() {
    assert_eq!(
        VDBUpdateResponse::from_outcome(Ok(vec![])),
        VDBUpdateResponse { success: true, error: None }
    );
    assert_eq!(
        VDBUpdateResponse::from_outcome(Err("e".to_string())),
        VDBUpdateResponse { success: false, error: Some("e".to_string()) }
    );
}

#[test]
fn delete_command_carries_ids_as_msgpack() {
    let ids = vec!["efdsaa".to_string(), "b".to_string()];
    let cmd = VDBAsyncClient::delete_command(&ids).unwrap();
    assert_eq!(cmd.kind, VDBCommandKind::DELETE);
    assert_eq!(cmd.payload, rmp_serde::to_vec(&ids).unwrap());
    assert_eq!(cmd.payload, vec![0x92, 0xa6, b'e', b'f', b'd', b's', b'a', b'a', 0xa1, b'b']);
}

#[test]
fn delete_response_from_outcomes() {
    assert_eq!(
        VDBDeleteResponse::from_outcome(Ok(vec![])),
        VDBDeleteResponse { success: true, error: None }
    );
    assert_eq!(
        VDBDeleteResponse::from_outcome(Err("gone".to_string())),
        VDBDeleteResponse { success: false, error: Some("gone".to_string()) }
    );
}

#[test]
fn handshake_request_carries_own_description() {
    let client = VDBAsyncClient::new(client_peer_info("vectordb", "2024.9.1".to_string()));
    let request = client.handshake_request().unwrap();
    let info = rmp_serde::to_vec(&("2024.9.1", "vectordb SDK")).unwrap();
    let mut expected = b"VDB".to_vec();
    expected.extend_from_slice(&(info.len() as u32).to_be_bytes());
    expected.extend_from_slice(&info);
    assert_eq!(request, expected);
}

#[test]
fn delete_command_with_many_ids_uses_array16() {
    let ids: Vec<String> = (0..16).map(|i| format!("{}", i % 10)).collect();
    let cmd = VDBAsyncClient::delete_command(&ids).unwrap();
    assert_eq!(&cmd.payload[..3], &[0xdc, 0x00, 0x10]);
    assert_eq!(cmd.payload, rmp_serde::to_vec(&ids).unwrap());
}
