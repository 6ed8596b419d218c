use networking::addr::{SocketAddr, SocketAddrV4, SocketAddrV6};
use networking::discovery::{
    Discovered, Discovery, DropReason, Event, Response, Step, RECEIVE_BUF_SIZE, RESYNC_MS, TICK_MS,
};
use networking::interfaces::{Join, JoinOutcome};
use networking::message::{Hello, WhatsUp};
use networking::send::{
    Reply, ReplyStep, SendOutcome, REPLY_ATTEMPTS, REPLY_PAUSE_MS, SEND_TIMEOUT_MS,
};
use networking::zid::ZenohId;

const NAMESPACE: [u8; 8] = *b"namespac";
const OWN_NONCE: [u8; 8] = [1; 8];
const OTHER_NONCE: [u8; 8] = [2; 8];

fn zid_bytes(first: u8) -> [u8; 16] {
    let mut bytes = [0u8; 16];
    bytes[0] = first;
    bytes
}

fn zid(first: u8) -> ZenohId {
    ZenohId::from_le_bytes(zid_bytes(first)).unwrap()
}

fn node() -> Discovery {
    Discovery::with_nonce(zid(1), NAMESPACE, 0x1234, 52415, OWN_NONCE)
}

fn peer() -> SocketAddrV6 {
    SocketAddrV6 { ip: 0xfe80 << 112 | 5, port: 52415, flowinfo: 3, scope_id: 2 }
}

fn from_v6() -> SocketAddr {
    SocketAddr::V6(peer())
}

fn from_v4() -> SocketAddr {
    SocketAddr::V4(SocketAddrV4 { ip: 0x7f00_0001, port: 52415 })
}

fn respond(datagram: &[u8], from: SocketAddr) -> Response {
    node().respond(datagram.len(), from, datagram)
}

fn dropped(response: Response) -> DropReason {
    match response {
        Response::Dropped(reason) => reason,
        other => panic!("not dropped: {other:?}"),
    }
}

fn reply(response: Response) -> Reply {
    match response {
        Response::Reply(reply) => reply,
        other => panic!("no reply: {other:?}"),
    }
}

fn found(response: Response) -> Discovered {
    match response {
        Response::Found(found) => found,
        other => panic!("nothing found: {other:?}"),
    }
}

fn hello(nonce: [u8; 8], namespace: [u8; 8]) -> Vec<u8> {
    Hello { nonce, namespace }.to_datagram().to_vec()
}

fn whats_up(nonce: [u8; 8], zid: [u8; 16], port_le: [u8; 2]) -> Vec<u8> {
    WhatsUp { nonce, zid, port_le }.to_datagram().to_vec()
}

#[test]
fn constants_of_the_protocol() {
    assert_eq!(RECEIVE_BUF_SIZE, 51);
    assert_eq!(TICK_MS, 1000);
    assert_eq!(RESYNC_MS, 10000);
    assert_eq!(SEND_TIMEOUT_MS, 500);
    assert_eq!(REPLY_PAUSE_MS, 300);
    assert_eq!(REPLY_ATTEMPTS, 5);
}

#[test]
fn zero_is_no_zenoh_id() {
    assert!(ZenohId::from_le_bytes([0; 16]).is_none());
    let mut high = [0u8; 16];
    high[15] = 1;
    assert_eq!(ZenohId::from_le_bytes(high).unwrap().to_le_bytes(), high);
    assert_eq!(zid(7).to_le_bytes(), zid_bytes(7));
    assert!(zid(7) == zid(7));
    assert!(zid(7) != zid(8));
}

#[test]
fn zenoh_ids_agree_with_zenoh() {
    for bytes in [zid_bytes(1), zid_bytes(255), [0xab; 16], [0; 16]] {
        let theirs = zenoh::config::ZenohId::try_from(&bytes[..]).ok();
        let ours = ZenohId::from_le_bytes(bytes);
        assert_eq!(ours.map(|id| id.to_le_bytes()), theirs.map(|id| id.to_le_bytes()));
    }
}

#[test]
fn too_short_for_a_header() {
    assert_eq!(dropped(respond(b"", from_v6())), DropReason::EarlyEof);
    assert_eq!(dropped(respond(b"EXO", from_v6())), DropReason::EarlyEof);
    let buf = [0u8; RECEIVE_BUF_SIZE];
    assert_eq!(dropped(node().respond(3, from_v6(), &buf)), DropReason::EarlyEof);
}

#[test]
fn not_of_this_protocol() {
    let mut datagram = hello(OTHER_NONCE, NAMESPACE);
    datagram[2] = b'o';
    assert_eq!(dropped(respond(&datagram, from_v6())), DropReason::WrongMagic);
}

#[test]
fn of_an_unknown_kind() {
    let mut datagram = hello(OTHER_NONCE, NAMESPACE);
    datagram[3] = 2;
    assert_eq!(dropped(respond(&datagram, from_v6())), DropReason::UnknownKind(2));
    assert_eq!(dropped(respond(b"EXO\xff", from_v6())), DropReason::UnknownKind(255));
}

#[test]
fn hello_of_the_wrong_size() {
    let datagram = hello(OTHER_NONCE, NAMESPACE);
    assert_eq!(dropped(respond(&datagram[..19], from_v6())), DropReason::HelloWrongSize);
    assert_eq!(dropped(respond(b"EXO\x00", from_v6())), DropReason::HelloWrongSize);
    let mut longer = datagram.clone();
    longer.push(0);
    assert_eq!(dropped(respond(&longer, from_v6())), DropReason::HelloWrongSize);
}

#[test]
fn own_hello() {
    let datagram = hello(OWN_NONCE, NAMESPACE);
    assert_eq!(dropped(respond(&datagram, from_v6())), DropReason::LocalHelloNonce);
    let elsewhere = hello(OWN_NONCE, [0; 8]);
    assert_eq!(dropped(respond(&elsewhere, from_v6())), DropReason::LocalHelloNonce);
}

#[test]
fn hello_from_another_namespace() {
    let datagram = hello(OTHER_NONCE, *b"namespad");
    assert_eq!(dropped(respond(&datagram, from_v6())), DropReason::DifferentNamespace);
}

#[test]
fn hello_is_answered() {
    let datagram = hello(OTHER_NONCE, NAMESPACE);
    for from in [from_v6(), from_v4()] {
        let reply = reply(respond(&datagram, from));
        assert_eq!(reply.to(), from);
        assert_eq!(reply.attempt(), 1);
        let expected = whats_up(OTHER_NONCE, zid_bytes(1), [0x34, 0x12]);
        assert_eq!(reply.datagram().to_vec(), expected);
    }
}

#[test]
fn whats_up_of_the_wrong_size() {
    let datagram = whats_up(OWN_NONCE, zid_bytes(2), [1, 0]);
    assert_eq!(dropped(respond(&datagram[..29], from_v6())), DropReason::WhatsUpWrongSize);
    let mut longer = datagram.clone();
    longer.push(0);
    assert_eq!(dropped(respond(&longer, from_v6())), DropReason::WhatsUpWrongSize);
}

#[test]
fn whats_up_with_a_stale_nonce() {
    let datagram = whats_up(OTHER_NONCE, zid_bytes(2), [1, 0]);
    assert_eq!(dropped(respond(&datagram, from_v6())), DropReason::StaleNonce);
}

#[test]
fn whats_up_from_an_ipv4_address() {
    let datagram = whats_up(OWN_NONCE, zid_bytes(2), [1, 0]);
    assert_eq!(dropped(respond(&datagram, from_v4())), DropReason::V4Address);
}

#[test]
fn whats_up_without_a_zenoh_id() {
    let datagram = whats_up(OWN_NONCE, [0; 16], [1, 0]);
    assert_eq!(dropped(respond(&datagram, from_v6())), DropReason::InvalidZenohId);
}

#[test]
fn whats_up_from_this_node() {
    let datagram = whats_up(OWN_NONCE, zid_bytes(1), [1, 0]);
    assert_eq!(dropped(respond(&datagram, from_v6())), DropReason::SelfZenohId);
}

#[test]
fn whats_up_is_a_discovery() {
    let datagram = whats_up(OWN_NONCE, zid_bytes(2), [0x01, 0xff]);
    let found = found(respond(&datagram, from_v6()));
    assert_eq!(found.zid.to_le_bytes(), zid_bytes(2));
    assert_eq!(found.addr, SocketAddrV6 { port: 0xff01, ..peer() });
}

#[test]
fn only_the_bytes_read_count() {
    let mut buf = [0xeeu8; RECEIVE_BUF_SIZE];
    buf[..30].copy_from_slice(&whats_up(OWN_NONCE, zid_bytes(2), [0x01, 0x00]));
    let node = node();
    assert_eq!(found(node.respond(30, from_v6(), &buf)).addr.port, 1);
    assert_eq!(dropped(node.respond(29, from_v6(), &buf)), DropReason::WhatsUpWrongSize);
}

#[test]
fn a_datagram_that_fills_the_buffer_is_dropped() {
    let mut buf = [0u8; RECEIVE_BUF_SIZE];
    buf[..4].copy_from_slice(b"EXO\x00");
    assert_eq!(dropped(respond(&buf, from_v6())), DropReason::HelloWrongSize);
    buf[3] = 1;
    assert_eq!(dropped(respond(&buf, from_v6())), DropReason::WhatsUpWrongSize);
}

#[test]
fn two_nodes_find_each_other() {
    let mut asking = Discovery::new(zid(1), NAMESPACE, 4001, 52415);
    let mut answering = Discovery::new(zid(2), NAMESPACE, 4002, 52415);
    let announcement = asking.announce();
    let datagram = announcement.datagram();

    let event = Event::Received { bytes_read: datagram.len(), addr: from_v6() };
    let answer = match answering.next(event, &datagram) {
        Step::Respond(response) => reply(response),
        other => panic!("{other:?}"),
    };
    assert_eq!(answer.to(), from_v6());

    let answer = answer.datagram();
    let event = Event::Received { bytes_read: answer.len(), addr: from_v6() };
    let found = match asking.next(event, &answer) {
        Step::Respond(response) => found(response),
        other => panic!("{other:?}"),
    };
    assert_eq!(found.zid.to_le_bytes(), zid_bytes(2));
    assert_eq!(found.addr, SocketAddrV6 { port: 4002, ..peer() });

    // The answer is answered by nobody, and the next announcement makes it stale.
    let response = answering.respond(answer.len(), from_v6(), &answer);
    assert_eq!(dropped(response), DropReason::StaleNonce);
    asking.announce_with([0x55; 8]);
    let response = asking.respond(answer.len(), from_v6(), &answer);
    assert_eq!(dropped(response), DropReason::StaleNonce);
}

#[test]
fn an_announcement_holds_the_new_nonce() {
    let mut node = node();
    node.update_interfaces(&[], &[Join { index: 6, outcome: JoinOutcome::Joined }], &[]);
    let announcement = node.announce_with([0x66; 8]);
    assert_eq!(announcement.datagram().to_vec(), hello([0x66; 8], NAMESPACE));
    assert_eq!(announcement.target().unwrap().scope_id, 6);
    let back = announcement.datagram();
    assert_eq!(dropped(node.respond(20, from_v6(), &back)), DropReason::LocalHelloNonce);
    let earlier = hello(OWN_NONCE, NAMESPACE);
    assert_eq!(reply(node.respond(20, from_v6(), &earlier)).attempt(), 1);
}

#[test]
fn each_tick_announces_under_another_nonce() {
    let mut node = node();
    let mut nonces = Vec::new();
    for _ in 0..8 {
        match node.next(Event::Tick, &[]) {
            Step::Announce(announcement) => nonces.push(Hello::read(&announcement.datagram()).nonce),
            other => panic!("{other:?}"),
        }
    }
    nonces.sort();
    nonces.dedup();
    assert_eq!(nonces.len(), 8);
}

#[test]
fn a_failed_receive_is_skipped() {
    assert!(matches!(node().next(Event::ReceiveFailed, &[]), Step::Skip));
}

#[test]
fn a_reply_is_sent_once_if_it_gets_through() {
    let mut reply = reply(respond(&hello(OTHER_NONCE, NAMESPACE), from_v6()));
    assert_eq!(reply.sent(SendOutcome::Sent(30)), ReplyStep::Delivered);
    assert_eq!(reply.attempt(), 1);
}

#[test]
fn a_reply_is_given_up_after_five_attempts() {
    let mut reply = reply(respond(&hello(OTHER_NONCE, NAMESPACE), from_v6()));
    assert_eq!(reply.sent(SendOutcome::Sent(29)), ReplyStep::Retry);
    assert_eq!(reply.sent(SendOutcome::TimedOut), ReplyStep::Retry);
    assert_eq!(reply.sent(SendOutcome::Failed), ReplyStep::Retry);
    assert_eq!(reply.sent(SendOutcome::HostUnreachable), ReplyStep::Retry);
    assert_eq!(reply.attempt(), 5);
    assert_eq!(reply.sent(SendOutcome::Sent(31)), ReplyStep::GiveUp);
}

#[test]
fn a_reply_may_get_through_at_the_last_attempt() {
    let mut reply = reply(respond(&hello(OTHER_NONCE, NAMESPACE), from_v6()));
    for _ in 0..4 {
        assert_eq!(reply.sent(SendOutcome::TimedOut), ReplyStep::Retry);
    }
    assert_eq!(reply.sent(SendOutcome::Sent(30)), ReplyStep::Delivered);
}
