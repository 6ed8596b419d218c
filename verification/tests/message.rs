use networking::message::{
    port_from_le_bytes, port_to_le_bytes, Header, Hello, Kind, Message, UnknownKind, WhatsUp,
    HEADER_SIZE, HELLO_SIZE, MAGIC, WHATS_UP_SIZE,
};

const NONCE: [u8; 8] = [1, 2, 3, 4, 5, 6, 7, 8];
const NAMESPACE: [u8; 8] = *b"testname";
const ZID: [u8; 16] = [9, 8, 7, 6, 5, 4, 3, 2, 1, 0, 1, 2, 3, 4, 5, 6];

#[test]
fn sizes_of_the_datagrams() {
    assert_eq!(HEADER_SIZE, 4);
    assert_eq!(HELLO_SIZE, 20);
    assert_eq!(WHATS_UP_SIZE, 30);
    assert_eq!(Hello::buf_size(), 20);
    assert_eq!(WhatsUp::buf_size(), 30);
    assert_eq!(&MAGIC, b"EXO");
}

#[test]
fn kinds_and_their_bytes() {
    assert_eq!(Kind::try_from(0), Ok(Kind::Hello));
    assert_eq!(Kind::try_from(1), Ok(Kind::WhatsUp));
    assert_eq!(Kind::try_from(2), Err(UnknownKind));
    assert_eq!(Kind::try_from(255), Err(UnknownKind));
    assert_eq!(Kind::Hello.to_byte(), 0);
    assert_eq!(Kind::WhatsUp.to_byte(), 1);
    assert_eq!(Hello::KIND, Kind::Hello);
    assert_eq!(WhatsUp::KIND, Kind::WhatsUp);
}

#[test]
fn header_bytes() {
    assert_eq!(&Header::new(Kind::Hello).to_bytes(), b"EXO\x00");
    assert_eq!(&Header::new(Kind::WhatsUp).to_bytes(), b"EXO\x01");
    let read = Header::read(b"EXO\x07 and more");
    assert!(read.has_magic());
    assert_eq!(read.kind(), 7);
    assert!(!Header::read(b"EXp\x00").has_magic());
    assert!(!Header::read(b"eXO\x00").has_magic());
}

#[test]
fn hello_datagram() {
    let datagram = Hello { nonce: NONCE, namespace: NAMESPACE }.to_datagram();
    assert_eq!(&datagram, b"EXO\x00\x01\x02\x03\x04\x05\x06\x07\x08testname");
}

#[test]
fn hello_is_read_back() {
    let datagram = Hello { nonce: NONCE, namespace: NAMESPACE }.to_datagram();
    let read = Hello::read(&datagram);
    assert_eq!(read.nonce, NONCE);
    assert_eq!(read.namespace, NAMESPACE);
    assert_eq!(read.to_datagram(), datagram);
}

#[test]
fn whats_up_datagram() {
    let datagram = WhatsUp { nonce: NONCE, zid: ZID, port_le: [0x34, 0x12] }.to_datagram();
    let mut expected = b"EXO\x01".to_vec();
    expected.extend_from_slice(&NONCE);
    expected.extend_from_slice(&ZID);
    expected.extend_from_slice(&[0x34, 0x12]);
    assert_eq!(datagram.to_vec(), expected);
}

#[test]
fn whats_up_is_read_back() {
    let datagram = WhatsUp { nonce: NONCE, zid: ZID, port_le: [0x34, 0x12] }.to_datagram();
    let read = WhatsUp::read(&datagram);
    assert_eq!(read.nonce, NONCE);
    assert_eq!(read.zid, ZID);
    assert_eq!(read.port_le, [0x34, 0x12]);
    assert_eq!(read.to_datagram(), datagram);
}

#[test]
fn ports_are_little_endian() {
    assert_eq!(port_to_le_bytes(0x1234), [0x34, 0x12]);
    assert_eq!(port_from_le_bytes([0x34, 0x12]), 0x1234);
    for port in 0..=u16::MAX {
        assert_eq!(port_to_le_bytes(port), port.to_le_bytes());
        assert_eq!(port_from_le_bytes(port_to_le_bytes(port)), port);
    }
}
