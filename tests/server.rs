use lancat::codec::encode_header;
use lancat::server::{Received, ServerError, ServerState, SERVER};
use lancat::session::{Delivery, ReadSession};

fn framed(name: &str, payload: &[u8]) -> Vec<u8> {
    let mut bytes = encode_header(name);
    bytes.extend_from_slice(payload);
    bytes
}

#[test]
fn split_header_and_payload() {
    let mut server: ServerState<u32> = ServerState::new(false);
    let token = server.accept(7).unwrap();
    let data = framed("bob", b"hello");
    let r = server.receive(token, &data).unwrap();
    assert_eq!(r, Received::Payload { start: 11 });
    assert_eq!(server.user(token).unwrap(), "bob");
    assert_eq!(&data[11..], b"hello");
}

#[test]
fn later_reads_are_all_payload() {
    let mut server: ServerState<u32> = ServerState::new(false);
    let token = server.accept(7).unwrap();
    server.receive(token, &framed("bob", b"a")).unwrap();
    assert_eq!(server.receive(token, b"more"), Ok(Received::Payload { start: 0 }));
    assert_eq!(server.user(token).unwrap(), "bob");
}

#[test]
fn header_only_then_close() {
    let mut server: ServerState<u32> = ServerState::new(false);
    let token = server.accept(7).unwrap();
    assert_eq!(server.receive(token, &encode_header("carol")), Ok(Received::Header));
    assert_eq!(server.user(token).unwrap(), "carol");
    assert_eq!(server.receive(token, &[]), Ok(Received::Closed));
    let teardown = server.close(token).unwrap();
    assert_eq!(teardown.stream, 7);
    assert!(teardown.keep_running);
    assert!(server.stream(token).is_none());
}

#[test]
fn interleaved_peers_keep_their_names() {
    let mut server: ServerState<u32> = ServerState::new(false);
    let a = server.accept(1).unwrap();
    let b = server.accept(2).unwrap();
    assert_ne!(a, b);
    let from_b = framed("b", b"line b\n");
    let from_a = framed("a", b"line a\n");
    assert_eq!(server.receive(b, &from_b), Ok(Received::Payload { start: 9 }));
    assert_eq!(server.receive(a, &from_a), Ok(Received::Payload { start: 9 }));
    assert_eq!(server.user(a).unwrap(), "a");
    assert_eq!(server.user(b).unwrap(), "b");
    assert_eq!(*server.stream(a).unwrap(), 1);
    assert_eq!(*server.stream(b).unwrap(), 2);
}

#[test]
fn torn_down_token_is_refused() {
    let mut server: ServerState<u32> = ServerState::new(false);
    let token = server.accept(3).unwrap();
    server.receive(token, &framed("eve", b"hi")).unwrap();
    assert!(server.close(token).is_some());
    assert_eq!(server.receive(token, b"again"), Err(ServerError::UnknownToken));
    assert!(server.close(token).is_none());
}

#[test]
fn tokens_increase_and_are_not_reused() {
    let mut server: ServerState<u32> = ServerState::new(false);
    let first = server.accept(1).unwrap();
    assert!(first != SERVER);
    assert_eq!(first, 1);
    server.close(first).unwrap();
    let second = server.accept(2).unwrap();
    assert_eq!(second, 2);
    let third = server.accept(3).unwrap();
    assert_eq!(third, 3);
    assert_eq!(server.accepted(), 3);
}

#[test]
fn once_mode_takes_one_peer_and_stops() {
    let mut server: ServerState<u32> = ServerState::new(true);
    assert!(server.is_once());
    let token = server.accept(1).unwrap();
    assert_eq!(server.accept(2), None);
    assert_eq!(
        server.receive(token, &framed("w", b"x")),
        Ok(Received::Payload { start: 9 })
    );
    assert_eq!(server.receive(token, &[]), Ok(Received::Closed));
    let teardown = server.close(token).unwrap();
    assert!(!teardown.keep_running);
    assert_eq!(server.accept(3), None);
}

#[test]
fn malformed_header_is_an_error() {
    let mut server: ServerState<u32> = ServerState::new(false);
    let token = server.accept(1).unwrap();
    assert_eq!(server.receive(token, &[1, 2, 3]), Err(ServerError::MalformedHeader));
    assert!(server.user(token).is_none());
    let mut partial = encode_header("alice");
    partial.truncate(10);
    assert_eq!(server.receive(token, &partial), Err(ServerError::MalformedHeader));
}

#[test]
fn unknown_token_is_an_error() {
    let mut server: ServerState<u32> = ServerState::new(false);
    assert_eq!(server.receive(5, b"x"), Err(ServerError::UnknownToken));
    assert_eq!(server.receive(SERVER, b"x"), Err(ServerError::UnknownToken));
}

#[test]
fn empty_user_name_is_still_a_header() {
    let mut server: ServerState<u32> = ServerState::new(false);
    let token = server.accept(1).unwrap();
    assert_eq!(
        server.receive(token, &framed("", b"data")),
        Ok(Received::Payload { start: 8 })
    );
    assert_eq!(server.receive(token, b"\0\0\0\0\0\0\0\0"), Ok(Received::Payload { start: 0 }));
}

#[test]
fn payload_chunks_concatenate_to_stream_after_header() {
    let mut server: ServerState<u32> = ServerState::new(false);
    let token = server.accept(1).unwrap();
    let mut stream = encode_header("dave");
    stream.extend_from_slice(b"the quick brown fox jumps");
    let reads: [&[u8]; 4] = [&stream[..14], &stream[14..20], &stream[20..21], &stream[21..]];
    let mut delivered = Vec::new();
    let mut calls = 0;
    for read in reads {
        if let Received::Payload { start } = server.receive(token, read).unwrap() {
            delivered.extend_from_slice(&read[start..]);
            calls += 1;
        }
    }
    assert_eq!(calls, 4);
    assert_eq!(delivered, b"the quick brown fox jumps".to_vec());
}

#[test]
fn callback_veto_tears_connection_down() {
    let mut session = ReadSession::new(Some(vec![String::from("alice")]));
    let mut server: ServerState<u32> = ServerState::new(false);
    let eve = server.accept(9).unwrap();
    let first = framed("eve", b"let me in");
    let start = match server.receive(eve, &first).unwrap() {
        Received::Payload { start } => start,
        other => panic!("unexpected {:?}", other),
    };
    assert_eq!(&first[start..], b"let me in");
    let user = server.user(eve).unwrap().clone();
    assert_eq!(session.on_data(&user), Delivery::Refuse);
    let teardown = server.close(eve).unwrap();
    assert_eq!(teardown.stream, 9);
    assert!(teardown.keep_running);
    assert_eq!(server.receive(eve, b"more"), Err(ServerError::UnknownToken));
}
