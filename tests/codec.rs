use lancat::codec::{decode_header, encode_header, DecodeError};
use lancat::discovery::DiscoveryInfo;

#[test]
fn header_bytes_are_length_then_utf8() {
    assert_eq!(
        encode_header("bob"),
        vec![3, 0, 0, 0, 0, 0, 0, 0, b'b', b'o', b'b']
    );
}

#[test]
fn header_of_empty_name_is_zero_length() {
    assert_eq!(encode_header(""), vec![0u8; 8]);
}

#[test]
fn header_length_counts_utf8_bytes() {
    let bytes = encode_header("é");
    assert_eq!(bytes, vec![2, 0, 0, 0, 0, 0, 0, 0, 0xC3, 0xA9]);
}

#[test]
fn header_round_trip() {
    for name in ["", "bob", "alice", "zoë", "名前"] {
        let bytes = encode_header(name);
        let (decoded, size) = decode_header(&bytes).unwrap();
        assert_eq!(decoded, name);
        assert_eq!(size, bytes.len());
    }
}

#[test]
fn header_followed_by_payload_reports_header_size() {
    let mut bytes = encode_header("bob");
    bytes.extend_from_slice(b"hello");
    let (name, size) = decode_header(&bytes).unwrap();
    assert_eq!(name, "bob");
    assert_eq!(size, 11);
    assert_eq!(&bytes[size..], b"hello");
}

#[test]
fn truncated_header_is_malformed() {
    let bytes = encode_header("alice");
    assert_eq!(decode_header(&bytes[..7]), Err(DecodeError::Malformed));
    assert_eq!(decode_header(&bytes[..9]), Err(DecodeError::Malformed));
    assert_eq!(decode_header(&[]), Err(DecodeError::Malformed));
}

#[test]
fn invalid_utf8_header_is_malformed() {
    let bytes = vec![2, 0, 0, 0, 0, 0, 0, 0, 0xC3, 0x28];
    assert_eq!(decode_header(&bytes), Err(DecodeError::Malformed));
}

#[test]
fn advertisement_bytes() {
    let info = DiscoveryInfo { name: String::from("alice"), port: 5555 };
    assert_eq!(
        info.encode(),
        vec![5, 0, 0, 0, 0, 0, 0, 0, b'a', b'l', b'i', b'c', b'e', 0xB3, 0x15]
    );
}

#[test]
fn advertisement_round_trip() {
    for (name, port) in [("alice", 5555u16), ("", 0), ("bob", 65535), ("ünï", 4376)] {
        let info = DiscoveryInfo { name: String::from(name), port };
        let decoded = DiscoveryInfo::decode(&info.encode()).unwrap();
        assert_eq!(decoded.name, name);
        assert_eq!(decoded.port, port);
    }
}

#[test]
fn advertisement_without_port_is_malformed() {
    let info = DiscoveryInfo { name: String::from("alice"), port: 5555 };
    let bytes = info.encode();
    assert!(DiscoveryInfo::decode(&bytes[..bytes.len() - 1]).is_err());
    assert!(DiscoveryInfo::decode(&[0]).is_err());
}
