use guess_session::game::Difficulty;
use guess_session::wire::decode_client_line;
use guess_session::wire::decode_client_message;
use guess_session::wire::decode_server_line;
use guess_session::wire::decode_server_message;
use guess_session::wire::encode_client_frame;
use guess_session::wire::encode_client_message;
use guess_session::wire::encode_server_frame;
use guess_session::wire::encode_server_message;
use guess_session::wire::ClientMessage;
use guess_session::wire::ServerMessage;

fn server_round_trip(m: ServerMessage) -> ServerMessage {
    let payload = encode_server_message(&m);
    decode_server_message(&payload).expect("payload must decode")
}

fn client_round_trip(m: ClientMessage) -> ClientMessage {
    let payload = encode_client_message(&m);
    decode_client_message(&payload).expect("payload must decode")
}

#[test]
fn wire_round_trip_every_server_variant() {
    let samples = vec![
        ServerMessage::TimerStart(20),
        ServerMessage::GameStart(Difficulty::Medium),
        ServerMessage::Hint("C’est plus".to_string()),
        ServerMessage::PlayerWon("Alice".to_string()),
        ServerMessage::GameEnd,
        ServerMessage::Guess(42, "Bob".to_string()),
        ServerMessage::DifficultyVote(Difficulty::Hard),
        ServerMessage::PlayerList(vec!["Alice".to_string(), "Bob".to_string()]),
    ];
    for m in samples {
        assert_eq!(server_round_trip(m.clone()), m);
    }
}

#[test]
fn wire_round_trip_every_client_variant() {
    let samples = vec![
        ClientMessage::Guess(1000),
        ClientMessage::DifficultyVote(Difficulty::Easy),
        ClientMessage::Join("Alice".to_string()),
        ClientMessage::RequestPlayers,
    ];
    for m in samples {
        assert_eq!(client_round_trip(m.clone()), m);
    }
}

#[test]
fn wire_round_trip_edge_values() {
    assert_eq!(
        server_round_trip(ServerMessage::TimerStart(u32::MAX)),
        ServerMessage::TimerStart(u32::MAX)
    );
    assert_eq!(
        server_round_trip(ServerMessage::PlayerList(vec![])),
        ServerMessage::PlayerList(vec![])
    );
    assert_eq!(
        server_round_trip(ServerMessage::Hint(String::new())),
        ServerMessage::Hint(String::new())
    );
    assert_eq!(
        server_round_trip(ServerMessage::PlayerList(vec![String::new(), "é".to_string()])),
        ServerMessage::PlayerList(vec![String::new(), "é".to_string()])
    );
}

#[test]
fn wire_frame_never_contains_delimiter() {
    // the value 10 encodes as a raw 0x0A byte, so the escape layer must hide it
    let m = ClientMessage::Guess(10);
    let frame = encode_client_frame(&m);
    let (last, body) = frame.split_last().expect("frame is never empty");
    assert_eq!(*last, b'\n');
    assert!(body.iter().all(|&b| b != b'\n'));
    let mut line = frame.clone();
    line.pop();
    assert_eq!(decode_client_line(&line), Some(m));
}

#[test]
fn wire_frame_round_trip_unicode_name() {
    let m = ClientMessage::Join("héllo\nwörld".to_string());
    let mut line = encode_client_frame(&m);
    assert_eq!(line.pop(), Some(b'\n'));
    assert!(line.iter().all(|&b| b != b'\n'));
    assert_eq!(decode_client_line(&line), Some(m));
}

#[test]
fn wire_frame_round_trip_server_side() {
    let m = ServerMessage::Guess(10, "Ann\n".to_string());
    let mut line = encode_server_frame(&m);
    assert_eq!(line.pop(), Some(b'\n'));
    assert!(line.iter().all(|&b| b != b'\n'));
    assert_eq!(decode_server_line(&line), Some(m));
}

#[test]
fn wire_decode_rejects_bad_payloads() {
    // empty payload
    assert_eq!(decode_client_message(&vec![]), None);
    assert_eq!(decode_server_message(&vec![]), None);
    // unknown tag
    assert_eq!(decode_client_message(&vec![9]), None);
    assert_eq!(decode_server_message(&vec![200]), None);
    // trailing bytes after a complete message
    let mut payload = encode_client_message(&ClientMessage::Guess(1));
    payload.push(0);
    assert_eq!(decode_client_message(&payload), None);
    // truncated message
    let short = encode_client_message(&ClientMessage::Guess(1))[..3].to_vec();
    assert_eq!(decode_client_message(&short), None);
    // an invalid scalar value in a string
    let mut bad = vec![2u8];
    bad.extend_from_slice(&[1, 0, 0, 0, 0, 0, 0, 0]); // one character
    bad.extend_from_slice(&[0, 0xD8, 0, 0]); // 0xD800: a surrogate, not a scalar
    assert_eq!(decode_client_message(&bad), None);
    // a bad difficulty byte
    assert_eq!(decode_client_message(&vec![1, 3]), None);
}

#[test]
fn wire_decode_rejects_bad_lines() {
    // a lone escape byte at the end of the line
    assert_eq!(decode_client_line(&vec![27]), None);
    // an unknown escape pair
    assert_eq!(decode_client_line(&vec![27, 7]), None);
    // a raw delimiter inside the line
    assert_eq!(decode_client_line(&vec![10]), None);
}
