use lancat::discovery::{
    endpoint_from_reply, reply_step, Discovery, DiscoveryInfo, EndpointInfo, PeerAddr, ReplyStep,
    DISCOVER_MAX,
};
use lancat::io_kind::IoKind;

fn advert(name: &str, port: u16) -> Vec<u8> {
    DiscoveryInfo { name: String::from(name), port }.encode()
}

#[test]
fn reply_names_listener_at_source_ip() {
    let ip = u32::from_be_bytes([192, 168, 1, 20]);
    let endpoint = endpoint_from_reply(&advert("alice", 5555), ip).unwrap();
    assert!(
        endpoint
            == EndpointInfo { name: String::from("alice"), addr: PeerAddr { ip, port: 5555 } }
    );
}

#[test]
fn collector_keeps_replies_in_order() {
    let mut discovery = Discovery::new();
    assert!(discovery.wants_more());
    discovery.on_reply(&advert("alice", 5555), 1).unwrap();
    discovery.on_reply(&advert("bob", 6000), 2).unwrap();
    discovery.on_reply(&advert("alice", 5555), 1).unwrap();
    let found = discovery.into_endpoints();
    assert_eq!(found.len(), 3);
    assert_eq!(found[0].name, "alice");
    assert_eq!(found[0].addr, PeerAddr { ip: 1, port: 5555 });
    assert_eq!(found[1].name, "bob");
    assert_eq!(found[1].addr, PeerAddr { ip: 2, port: 6000 });
    assert!(found[2] == found[0]);
}

#[test]
fn collector_stops_at_the_bound() {
    let mut discovery = Discovery::new();
    let bytes = advert("x", 1);
    let mut n = 0;
    while discovery.wants_more() {
        discovery.on_reply(&bytes, n).unwrap();
        n += 1;
    }
    assert_eq!(n as usize, DISCOVER_MAX);
    assert_eq!(discovery.into_endpoints().len(), 100);
}

#[test]
fn malformed_reply_is_not_collected() {
    let mut discovery = Discovery::new();
    assert!(discovery.on_reply(&[1, 2, 3], 9).is_err());
    discovery.on_reply(&advert("ten", 10), 10).unwrap();
    let found = discovery.into_endpoints();
    assert_eq!(found.len(), 1);
    assert_eq!(found[0].name, "ten");
}

#[test]
fn reply_with_trailing_bytes_is_read() {
    let mut bytes = advert("alice", 5555);
    bytes.extend_from_slice(&[9, 9]);
    let endpoint = endpoint_from_reply(&bytes, 4).unwrap();
    assert_eq!(endpoint.addr.port, 5555);
}

#[test]
fn reply_loop_retries_only_permission_denied() {
    assert_eq!(reply_step(Ok(())), ReplyStep::Done);
    assert_eq!(reply_step(Err(IoKind::PermissionDenied)), ReplyStep::Retry);
    assert_eq!(reply_step(Err(IoKind::Other)), ReplyStep::Fatal);
    assert_eq!(reply_step(Err(IoKind::WouldBlock)), ReplyStep::Fatal);
}

#[test]
fn one_reply_per_query() {
    let sends = [Err(IoKind::PermissionDenied), Err(IoKind::PermissionDenied), Ok(())];
    let mut sent = 0;
    for s in sends {
        match reply_step(s) {
            ReplyStep::Done => {
                sent += 1;
                break;
            }
            ReplyStep::Retry => continue,
            ReplyStep::Fatal => panic!("fatal"),
        }
    }
    assert_eq!(sent, 1);
}
