use minecraft_k8s::error::AppError;
use minecraft_k8s::rcon::{
    check_password, decode_packet_payload, decode_packet_size, encode_packet, parse_player_list,
    RconSession, SERVERDATA_AUTH, SERVERDATA_AUTH_RESPONSE, SERVERDATA_EXECCOMMAND,
    SERVERDATA_RESPONSE_VALUE,
};

#[test]
fn parse_player_list_variants() {
    assert!(parse_player_list("no players here").is_empty());
    assert!(parse_player_list("There are 0 of a max of 20 players online:").is_empty());
    assert!(parse_player_list("Players: ").is_empty());
    assert!(parse_player_list("There are 0 of a max of 0 players online:").is_empty());
    let players = parse_player_list("There are 2 of a max of 20 players online: steve, alex");
    assert_eq!(players, vec!["steve", "alex"]);
}

#[test]
fn parse_player_list_trims_and_drops_empty_names() {
    assert_eq!(parse_player_list("x:  a ,, b ,\tc\u{3000}, "), vec!["a", "b", "c"]);
    assert_eq!(parse_player_list("Online: THERE ARE 0 OF A MAX OF 0 PLAYERS ONLINE:"), Vec::<String>::new());
    assert_eq!(parse_player_list("a: b: c"), vec!["b: c"]);
}

#[test]
fn connect_rejects_empty_password() {
    let err = check_password("");
    assert!(matches!(err, Err(AppError::Rcon(_))));
    assert!(check_password("pw").is_ok());
}

#[test]
fn command_rejects_empty() {
    let mut session = RconSession::new();
    assert!(session.command_request("  ").is_err());
    assert_eq!(session.request_id, 0);
}

#[test]
fn read_packet_rejects_short_size() {
    assert!(decode_packet_size(&5i32.to_le_bytes()).is_err());
    assert_eq!(
        decode_packet_size(&(-3i32).to_le_bytes()).unwrap_err(),
        AppError::Rcon("invalid packet size: -3".into())
    );
    assert_eq!(decode_packet_size(&10i32.to_le_bytes()).unwrap(), 10);
}

#[test]
fn auth_failure_on_mismatched_id() {
    let mut session = RconSession::new();
    let (id, _) = session.auth_request("pw");
    assert_eq!(id, 1);
    assert!(session.check_auth_response(id, 999, SERVERDATA_AUTH_RESPONSE).is_err());
    assert!(session.check_auth_response(id, id, SERVERDATA_RESPONSE_VALUE).is_err());
    assert!(session.check_auth_response(id, id, SERVERDATA_AUTH_RESPONSE).is_ok());
}

#[test]
fn command_rejects_unexpected_response_type() {
    let session = RconSession::new();
    assert_eq!(
        session.check_command_response(SERVERDATA_AUTH, "bad".into()).unwrap_err(),
        AppError::Rcon("unexpected response type: 3".into())
    );
    assert_eq!(
        session.check_command_response(SERVERDATA_RESPONSE_VALUE, "ok".into()).unwrap(),
        "ok"
    );
}

/// A packet laid out by hand: size, id, type, body, two zero bytes.
fn wire(id: i32, packet_type: i32, body: &str) -> Vec<u8> {
    let mut v = Vec::new();
    v.extend_from_slice(&((body.len() + 10) as i32).to_le_bytes());
    v.extend_from_slice(&id.to_le_bytes());
    v.extend_from_slice(&packet_type.to_le_bytes());
    v.extend_from_slice(body.as_bytes());
    v.extend_from_slice(&[0, 0]);
    v
}

#[test]
fn encode_packet_matches_wire_format() {
    assert_eq!(encode_packet(1, SERVERDATA_AUTH, "secret"), wire(1, 3, "secret"));
    assert_eq!(encode_packet(-7, SERVERDATA_EXECCOMMAND, "list"), wire(-7, 2, "list"));
    assert_eq!(encode_packet(i32::MIN, 0, ""), wire(i32::MIN, 0, ""));
    assert_eq!(encode_packet(1, 2, "héllo ✓"), wire(1, 2, "héllo ✓"));
    assert_eq!(encode_packet(5, 0, "ab")[..4], [12, 0, 0, 0]);
}

#[test]
fn packet_roundtrip() {
    for (id, ty, body) in [(1, 3, "secret"), (-1, 2, "list"), (i32::MAX, 0, ""), (7, 0, "ünï ✓")] {
        let bytes = encode_packet(id, ty, body);
        let size = decode_packet_size(&bytes[..4]).unwrap();
        assert_eq!(size, bytes.len() - 4);
        let (rid, rty, rbody) = decode_packet_payload(&bytes[4..]);
        assert_eq!((rid, rty, rbody.as_str()), (id, ty, body));
    }
}

#[test]
fn payload_with_invalid_utf8_is_decoded_lossily() {
    let mut payload = Vec::new();
    payload.extend_from_slice(&4i32.to_le_bytes());
    payload.extend_from_slice(&0i32.to_le_bytes());
    payload.extend_from_slice(&[b'a', 0xff, b'b', 0, 0]);
    let (id, ty, body) = decode_packet_payload(&payload);
    assert_eq!((id, ty), (4, 0));
    assert_eq!(body, "a\u{fffd}b");
}

#[test]
fn session_ids_wrap() {
    let mut session = RconSession { request_id: i32::MAX };
    assert_eq!(session.next_id(), i32::MIN);
    let (id, bytes) = session.command_request("list").unwrap();
    assert_eq!(id, i32::MIN + 1);
    assert_eq!(bytes, wire(i32::MIN + 1, SERVERDATA_EXECCOMMAND, "list"));
}

#[test]
fn list_reply_reads_back_names() {
    let names = vec!["steve", "alex smith", "Notch"];
    let reply = format!("There are 3 of a max of 20 players online: {}", names.join(", "));
    assert_eq!(parse_player_list(&reply), names);
    assert_eq!(parse_player_list("There are 1 of a max of 5 players online: solo"), vec!["solo"]);
}

#[test]
fn command_ids_count_requests() {
    let mut session = RconSession::new();
    let (auth_id, _) = session.auth_request("pw");
    assert_eq!(auth_id, 1);
    for k in 0..5 {
        let (id, bytes) = session.command_request("list").unwrap();
        assert_eq!(id, k + 2);
        assert_eq!(bytes, wire(k + 2, SERVERDATA_EXECCOMMAND, "list"));
    }
    // A blank command uses no id.
    assert!(session.command_request(" ").is_err());
    assert_eq!(session.command_request("say hi").unwrap().0, 7);
}
