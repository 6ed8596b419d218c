//! What the calls of the library's functions give back, in bytes, fields and numbers.
//!
//! Each law takes the arguments of one call, or of a few, with what the calls returned, and says
//! how these relate.

use vstd::prelude::*;
use crate::addr::{SocketAddr, SocketAddrV6};
use crate::discovery::{
    Discovery, DropReason, Event, Response, ResponseView, Step, RECEIVE_BUF_SIZE, RESYNC_MS,
    TICK_MS,
};
use crate::interfaces::{to_join, Interface, Interfaces, Join, JoinOutcome};
use crate::meaning::{
    is_drop, law_addresses_announced_on, law_after_a_resync, law_after_a_send,
    law_announcement_goes_to_all, law_change_of_the_interfaces, law_found_fields, law_hello_bytes,
    law_kind_bytes, law_port_bytes, law_reply_bytes, law_to_join, law_why_dropped, law_zenoh_id,
    stands_at, starts_as,
};
use crate::message::{
    port_from_le_bytes, port_to_le_bytes, Header, Hello, Kind, UnknownKind, WhatsUp,
};
use crate::outside::drawn;
use crate::send::{
    Announcement, Reply, ReplyStep, SendOutcome, REPLY_PAUSE_MS, SEND_TIMEOUT_MS,
};
use crate::zid::ZenohId;

verus! {

// ---- Addresses and ids ----

/// [`SocketAddrV6::with_port`] changes the port and nothing else.
pub proof fn law_with_port(addr: SocketAddrV6, port: u16, result: SocketAddrV6)
    requires
        call_ensures(SocketAddrV6::with_port, (addr, port), result),
    ensures
        result.ip == addr.ip,
        result.port == port,
        result.flowinfo == addr.flowinfo,
        result.scope_id == addr.scope_id,
{
}

/// [`ZenohId::from_le_bytes`] makes no id of sixteen zeros, and of any other bytes one that
/// [`ZenohId::to_le_bytes`] gives them back of.
pub proof fn law_id_read_back(
    bytes: [u8; 16],
    made: Option<ZenohId>,
    id: &ZenohId,
    back: [u8; 16],
)
    requires
        call_ensures(ZenohId::from_le_bytes, (bytes,), made),
        call_ensures(ZenohId::to_le_bytes, (id,), back),
    ensures
        made is None <==> forall|i: int| 0 <= i < 16 ==> bytes@[i] == 0,
        made == Some(*id) ==> forall|i: int| 0 <= i < 16 ==> back@[i] == bytes@[i],
        exists|i: int| 0 <= i < 16 && back@[i] != 0,
{
    law_zenoh_id(bytes@);
}

/// Two ids are equal if and only if [`ZenohId::to_le_bytes`] gives the same bytes of both.
pub proof fn law_id_equality(
    a: &ZenohId,
    b: &ZenohId,
    a_bytes: [u8; 16],
    b_bytes: [u8; 16],
    same: bool,
)
    requires
        call_ensures(ZenohId::to_le_bytes, (a,), a_bytes),
        call_ensures(ZenohId::to_le_bytes, (b,), b_bytes),
        call_ensures(<ZenohId as PartialEq>::eq, (a, b), same),
    ensures
        same <==> forall|i: int| 0 <= i < 16 ==> a_bytes@[i] == b_bytes@[i],
{
    if forall|i: int| 0 <= i < 16 ==> a_bytes@[i] == b_bytes@[i] {
        assert(a_bytes@ =~= b_bytes@);
    }
}

// ---- Messages ----

/// [`Kind::to_byte`] gives 0 for a Hello and 1 for a WhatsUp. `Kind::try_from` is its inverse, and
/// fails on every other byte.
pub proof fn law_kind(kind: Kind, byte: u8, value: u8, read: Result<Kind, UnknownKind>)
    requires
        call_ensures(Kind::to_byte, (kind,), byte),
        call_ensures(<Kind as TryFrom<u8>>::try_from, (value,), read),
    ensures
        kind is Hello <==> byte == 0,
        kind is WhatsUp <==> byte == 1,
        read == Ok::<Kind, UnknownKind>(kind) <==> value == byte,
        read is Err <==> value != 0 && value != 1,
{
    law_kind_bytes(value);
}

/// A header that [`Header::new`] makes or [`Header::read`] takes from a datagram has four bytes. It
/// is the magic's if and only if the first three are `EXO`; the fourth is the kind's.
pub proof fn law_header(
    header: &Header,
    bytes: [u8; 4],
    magic: bool,
    kind: u8,
    datagram: &[u8],
    made_for: Kind,
)
    requires
        call_ensures(Header::to_bytes, (header,), bytes),
        call_ensures(Header::has_magic, (header,), magic),
        call_ensures(Header::kind, (header,), kind),
    ensures
        kind == bytes@[3],
        magic <==> bytes@[0] == 0x45 && bytes@[1] == 0x58 && bytes@[2] == 0x4f,
        datagram@.len() >= 4 && call_ensures(Header::read, (datagram,), *header) ==> stands_at(
            datagram@,
            0,
            bytes@,
        ),
        call_ensures(Header::new, (made_for,), *header) ==> starts_as(
            bytes@,
            if made_for is Hello {
                0
            } else {
                1
            },
        ),
{
    let start = bytes@.take(3);
    let exo = crate::message::MAGIC@;
    if magic {
        assert(start[0] == exo[0] && start[1] == exo[1] && start[2] == exo[2]);
    }
    if bytes@[0] == 0x45 && bytes@[1] == 0x58 && bytes@[2] == 0x4f {
        assert(start =~= exo);
    }
    if datagram@.len() >= 4 && call_ensures(Header::read, (datagram,), *header) {
        assert forall|i: int| 0 <= i < 4 implies datagram@[0 + i] == #[trigger] bytes@[i] by {
            assert(datagram@.take(4)[i] == datagram@[i]);
        }
    }
}

/// [`Hello::to_datagram`] writes twenty bytes: `EXO`, 0, the nonce and the namespace.
pub proof fn law_hello_to_datagram(hello: Hello, datagram: [u8; 20], size: usize)
    requires
        call_ensures(Hello::to_datagram, (hello,), datagram),
        call_ensures(Hello::buf_size, (), size),
    ensures
        size == 20,
        starts_as(datagram@, 0),
        stands_at(datagram@, 4, hello.nonce@),
        stands_at(datagram@, 12, hello.namespace@),
{
    law_hello_bytes(hello.nonce@, hello.namespace@);
}

/// [`Hello::read`] takes the nonce and the namespace from where they stand.
pub proof fn law_hello_read(datagram: &[u8], hello: Hello)
    requires
        datagram@.len() == 20,
        call_ensures(Hello::read, (datagram,), hello),
    ensures
        stands_at(datagram@, 4, hello.nonce@),
        stands_at(datagram@, 12, hello.namespace@),
{
    assert forall|i: int| 0 <= i < 8 implies datagram@[4 + i] == #[trigger] hello.nonce@[i] by {
        assert(datagram@.subrange(4, 12)[i] == datagram@[4 + i]);
    }
    assert forall|i: int| 0 <= i < 8 implies datagram@[12 + i]
        == #[trigger] hello.namespace@[i] by {
        assert(datagram@.subrange(12, 20)[i] == datagram@[12 + i]);
    }
}

/// [`WhatsUp::to_datagram`] writes thirty bytes: `EXO`, 1, the nonce, the id and the port.
pub proof fn law_whats_up_to_datagram(whats_up: WhatsUp, datagram: [u8; 30], size: usize)
    requires
        call_ensures(WhatsUp::to_datagram, (whats_up,), datagram),
        call_ensures(WhatsUp::buf_size, (), size),
    ensures
        size == 30,
        starts_as(datagram@, 1),
        stands_at(datagram@, 4, whats_up.nonce@),
        stands_at(datagram@, 12, whats_up.zid@),
        stands_at(datagram@, 28, whats_up.port_le@),
{
}

/// [`WhatsUp::read`] takes the nonce, the id and the port from where they stand.
pub proof fn law_whats_up_read(datagram: &[u8], whats_up: WhatsUp)
    requires
        datagram@.len() == 30,
        call_ensures(WhatsUp::read, (datagram,), whats_up),
    ensures
        stands_at(datagram@, 4, whats_up.nonce@),
        stands_at(datagram@, 12, whats_up.zid@),
        stands_at(datagram@, 28, whats_up.port_le@),
{
    assert forall|i: int| 0 <= i < 8 implies datagram@[4 + i] == #[trigger] whats_up.nonce@[i] by {
        assert(datagram@.subrange(4, 12)[i] == datagram@[4 + i]);
    }
    assert forall|i: int| 0 <= i < 16 implies datagram@[12 + i] == #[trigger] whats_up.zid@[i] by {
        assert(datagram@.subrange(12, 28)[i] == datagram@[12 + i]);
    }
    assert forall|i: int| 0 <= i < 2 implies datagram@[28 + i]
        == #[trigger] whats_up.port_le@[i] by {
        assert(datagram@.subrange(28, 30)[i] == datagram@[28 + i]);
    }
}

/// [`port_to_le_bytes`] gives the low byte of the port first; [`port_from_le_bytes`] is its
/// inverse.
pub proof fn law_port(port: u16, bytes: [u8; 2], port_le: [u8; 2], value: u16)
    requires
        call_ensures(port_to_le_bytes, (port,), bytes),
        call_ensures(port_from_le_bytes, (port_le,), value),
    ensures
        bytes@[0] + 256 * bytes@[1] == port,
        port_le@[0] + 256 * port_le@[1] == value,
        value == port <==> bytes@ == port_le@,
{
    law_port_bytes(port, port_le@);
}

// ---- Interfaces ----

/// The group is to be joined on an interface if and only if one of its addresses is neither `::`
/// nor `::1`, wherever it stands and whatever the others are.
pub proof fn law_is_worth_joining(interface: &Interface, worth: bool)
    requires
        call_ensures(Interface::is_worth_joining, (interface,), worth),
    ensures
        worth <==> exists|i: int|
            0 <= i < interface.ipv6@.len() && #[trigger] interface.ipv6@[i] != 0
                && interface.ipv6@[i] != 1,
{
}

/// An interface that has the addresses of another and more is worth joining if the other is.
pub proof fn law_more_addresses_are_worth_no_less(
    fewer: &Interface,
    more: &Interface,
    worth: bool,
    still_worth: bool,
)
    requires
        forall|ip: u128| #[trigger] fewer.ipv6@.contains(ip) ==> more.ipv6@.contains(ip),
        call_ensures(Interface::is_worth_joining, (fewer,), worth),
        call_ensures(Interface::is_worth_joining, (more,), still_worth),
    ensures
        worth ==> still_worth,
{
    if worth {
        let i = choose|i: int|
            0 <= i < fewer.ipv6@.len() && fewer.ipv6@[i] != 0 && fewer.ipv6@[i] != 1;
        assert(fewer.ipv6@.contains(fewer.ipv6@[i]));
        let j = more.ipv6@.index_of(fewer.ipv6@[i]);
        assert(more.ipv6@[j] != 0);
    }
}

/// [`to_join`] gives the index of an interface if and only if one of that index is listed with an
/// address that is neither `::` nor `::1`.
pub proof fn law_indices_to_join(present: &[Interface], indices: Vec<u32>, index: u32)
    requires
        call_ensures(to_join, (present,), indices),
    ensures
        indices@.contains(index) <==> exists|k: int, i: int|
            0 <= k < present@.len() && present@[k].index == index && 0 <= i
                < present@[k].ipv6@.len() && #[trigger] present@[k].ipv6@[i] != 0
                && present@[k].ipv6@[i] != 1,
{
    law_to_join(present@, index);
}

/// Of a listing that is put together of two, [`to_join`] gives what it gives of the first and,
/// behind it, what it gives of the second.
pub proof fn law_indices_to_join_in_order(
    first: &[Interface],
    second: &[Interface],
    both: &[Interface],
    of_first: Vec<u32>,
    of_second: Vec<u32>,
    of_both: Vec<u32>,
)
    requires
        both@ == first@ + second@,
        call_ensures(to_join, (first,), of_first),
        call_ensures(to_join, (second,), of_second),
        call_ensures(to_join, (both,), of_both),
    ensures
        of_both@ == of_first@ + of_second@,
        first@.len() == 1 && of_first@.len() > 0 ==> of_first@ == seq![first@[0].index],
{
    if first@.len() == 1 {
        assert(first@ =~= seq![first@[0]]);
        crate::meaning::law_to_join_one_by_one(first@, second@, first@[0]);
    } else {
        crate::meaning::law_to_join_one_by_one(first@, second@, arbitrary());
    }
}

/// Interfaces that [`Interfaces::new`] makes are none.
pub proof fn law_no_interfaces_yet(port: u16, interfaces: Interfaces, index: u32)
    requires
        call_ensures(Interfaces::new, (port,), interfaces),
    ensures
        interfaces@.wf(),
        interfaces@.ifaces.len() == 0,
        !interfaces@.known.contains(index),
        interfaces@.port == port,
{
}

/// [`Interfaces::ifaces`] gives the group's address at the port of announcements, once each on some
/// known interfaces.
pub proof fn law_ifaces(
    interfaces: &Interfaces,
    ifaces: Vec<SocketAddrV6>,
    index: u32,
    known: bool,
)
    requires
        interfaces@.wf(),
        call_ensures(Interfaces::ifaces, (interfaces,), ifaces),
        call_ensures(Interfaces::knows, (interfaces, index), known),
    ensures
        forall|i: int|
            #![trigger ifaces@[i]]
            0 <= i < ifaces@.len() ==> {
                &&& ifaces@[i].ip == 0xff12_0000_0000_0000_0000_0000_e0a1_de89
                &&& ifaces@[i].port == interfaces@.port
                &&& ifaces@[i].flowinfo == 0
                &&& ifaces@[i].scope_id == index ==> known
            },
        forall|i: int, j: int|
            0 <= i < j < ifaces@.len() ==> #[trigger] ifaces@[i].scope_id
                != #[trigger] ifaces@[j].scope_id,
{
    law_addresses_announced_on(interfaces@);
}

/// After [`Interfaces::update`], an interface is known if and only if it was so, is listed or was
/// joined, and has not gone; and it is the scope of one of the addresses if and only if it was so
/// or was joined, and has not gone.
pub proof fn law_interfaces_update(
    interfaces: &mut Interfaces,
    present: &[Interface],
    joins: &[Join],
    removed: &[u32],
    index: u32,
)
    requires
        old(interfaces)@.wf(),
        call_ensures(Interfaces::update, (interfaces, present, joins, removed), ()),
    ensures
        ({
            let before = old(interfaces)@;
            let after = final(interfaces)@;
            let listed = exists|k: int|
                0 <= k < present@.len() && #[trigger] present@[k].index == index;
            let joined = exists|k: int|
                0 <= k < joins@.len() && #[trigger] joins@[k].index == index && (joins@[k].outcome
                    == JoinOutcome::Joined || joins@[k].outcome == JoinOutcome::AlreadyJoined);
            let gone = exists|k: int| 0 <= k < removed@.len() && #[trigger] removed@[k] == index;
            let had = exists|i: int|
                0 <= i < before.ifaces.len() && #[trigger] before.ifaces[i].scope_id == index;
            let has = exists|i: int|
                0 <= i < after.ifaces.len() && #[trigger] after.ifaces[i].scope_id == index;
            &&& after.wf()
            &&& after.port == before.port
            &&& after.known.contains(index) <==> (before.known.contains(index) || listed || joined)
                && !gone
            &&& has <==> (had || joined) && !gone
        }),
{
    law_change_of_the_interfaces(old(interfaces)@, present@, joins@, removed@, index);
}

/// After [`Interfaces::resync`], each known interface, and no other, is the scope of an address.
/// The addresses that were there stay where they are, and the number returned is that of the
/// others.
pub proof fn law_interfaces_resync(interfaces: &mut Interfaces, restored: usize, index: u32)
    requires
        old(interfaces)@.wf(),
        call_ensures(Interfaces::resync, (interfaces,), restored),
    ensures
        ({
            let before = old(interfaces)@;
            let after = final(interfaces)@;
            &&& after.wf()
            &&& after.port == before.port
            &&& after.known == before.known
            &&& before.known.contains(index) <==> exists|i: int|
                0 <= i < after.ifaces.len() && #[trigger] after.ifaces[i].scope_id == index
            &&& after.ifaces.len() == before.ifaces.len() + restored
            &&& forall|i: int|
                0 <= i < before.ifaces.len() ==> #[trigger] after.ifaces[i] == before.ifaces[i]
        }),
{
    law_after_a_resync(old(interfaces)@, final(interfaces)@, index);
}

/// [`Interfaces::take_out`] takes out an address if it is there, and says whether it was. The last
/// address takes its place; the others stay where they are.
pub proof fn law_take_out(interfaces: &mut Interfaces, addr: SocketAddrV6, taken: bool, at: int)
    requires
        old(interfaces)@.wf(),
        call_ensures(Interfaces::take_out, (interfaces, addr), taken),
    ensures
        ({
            let before = old(interfaces)@;
            let after = final(interfaces)@;
            let len = before.ifaces.len();
            &&& after.wf()
            &&& after.known == before.known
            &&& after.port == before.port
            &&& taken <==> before.ifaces.contains(addr)
            &&& !taken ==> after.ifaces == before.ifaces
            &&& 0 <= at < len && before.ifaces[at] == addr ==> {
                &&& after.ifaces.len() == len - 1
                &&& at < len - 1 ==> after.ifaces[at] == before.ifaces[len - 1]
                &&& forall|i: int|
                    0 <= i < len - 1 && i != at ==> #[trigger] after.ifaces[i] == before.ifaces[i]
            }
        }),
{
    law_after_a_send(old(interfaces)@, addr, SendOutcome::HostUnreachable, at);
}

// ---- Announcements and replies on their way ----

/// The next target of an announcement is the last of those that are left, and there is none if and
/// only if none is left.
pub proof fn law_target(
    announcement: &Announcement,
    targets: &Vec<SocketAddrV6>,
    pending: usize,
    target: Option<SocketAddrV6>,
)
    requires
        announcement@.wf(),
        call_ensures(Announcement::targets, (announcement,), targets),
        call_ensures(Announcement::pending, (announcement,), pending),
        call_ensures(Announcement::target, (announcement,), target),
    ensures
        pending <= targets@.len(),
        target is None <==> pending == 0,
        target matches Some(addr) ==> addr == targets@[pending - 1],
{
}

/// A reply is delivered by thirty bytes and by nothing else. Until it is, it is sent up to five
/// times; it stays the same, and goes to the same address.
pub proof fn law_reply_sent(reply: &mut Reply, outcome: SendOutcome, step: ReplyStep)
    requires
        old(reply)@.wf(),
        call_ensures(Reply::sent, (reply, outcome), step),
    ensures
        1 <= old(reply)@.attempt <= 5,
        step is Delivered <==> outcome == SendOutcome::Sent(30),
        step is Retry <==> outcome != SendOutcome::Sent(30) && old(reply)@.attempt < 5,
        step is GiveUp <==> outcome != SendOutcome::Sent(30) && old(reply)@.attempt == 5,
        final(reply)@.datagram == old(reply)@.datagram,
        final(reply)@.to == old(reply)@.to,
        step is Retry ==> final(reply)@.attempt == old(reply)@.attempt + 1,
        !(step is Retry) ==> final(reply)@.attempt == old(reply)@.attempt,
{
}

/// What is read of a reply is what the response gave it, or what the last attempt left it with.
pub proof fn law_reply_read(reply: &Reply, datagram: [u8; 30], to: SocketAddr, attempt: u32)
    requires
        call_ensures(Reply::datagram, (reply,), datagram),
        call_ensures(Reply::to, (reply,), to),
        call_ensures(Reply::attempt, (reply,), attempt),
    ensures
        datagram@ == reply@.datagram,
        to == reply@.to,
        attempt == reply@.attempt,
{
}

// ---- A node ----

/// A node that [`Discovery::new`] or [`Discovery::with_nonce`] makes has what it is given, and no
/// interfaces. The nonce of the first is drawn; that of the second is the one given.
pub proof fn law_new_node(
    zid: ZenohId,
    namespace: [u8; 8],
    listen_port: u16,
    discovery_port: u16,
    nonce: [u8; 8],
    node: Discovery,
    index: u32,
)
    requires
        call_ensures(Discovery::new, (zid, namespace, listen_port, discovery_port), node)
            || call_ensures(
            Discovery::with_nonce,
            (zid, namespace, listen_port, discovery_port, nonce),
            node,
        ),
    ensures
        node@.wf(),
        node@.zid == zid@,
        node@.namespace == namespace@,
        node@.listen_port == listen_port,
        node@.interfaces.port == discovery_port,
        node@.interfaces.ifaces.len() == 0,
        !node@.interfaces.known.contains(index),
        call_ensures(
            Discovery::with_nonce,
            (zid, namespace, listen_port, discovery_port, nonce),
            node,
        ) ==> node@.last_nonce == nonce@,
        call_ensures(Discovery::new, (zid, namespace, listen_port, discovery_port), node) ==> drawn(
            node@.last_nonce,
        ),
{
}

/// [`Discovery::ifaces`] gives the group's address at the discovery port, once each on some
/// interfaces, all of which [`Discovery::knows`].
pub proof fn law_node_ifaces(
    node: &Discovery,
    ifaces: Vec<SocketAddrV6>,
    index: u32,
    known: bool,
)
    requires
        node@.wf(),
        call_ensures(Discovery::ifaces, (node,), ifaces),
        call_ensures(Discovery::knows, (node, index), known),
    ensures
        ifaces@ == node@.interfaces.ifaces,
        known == node@.interfaces.known.contains(index),
        forall|i: int|
            #![trigger ifaces@[i]]
            0 <= i < ifaces@.len() ==> {
                &&& ifaces@[i].ip == 0xff12_0000_0000_0000_0000_0000_e0a1_de89
                &&& ifaces@[i].port == node@.interfaces.port
                &&& ifaces@[i].flowinfo == 0
                &&& ifaces@[i].scope_id == index ==> known
            },
        forall|i: int, j: int|
            0 <= i < j < ifaces@.len() ==> #[trigger] ifaces@[i].scope_id
                != #[trigger] ifaces@[j].scope_id,
{
    law_addresses_announced_on(node@.interfaces);
}

/// After [`Discovery::update_interfaces`], an interface is known if and only if it was so, is
/// listed or was joined, and has not gone; and it is announced on if and only if it was so or was
/// joined, and has not gone. Nothing else of the node changes.
pub proof fn law_node_update(
    node: &mut Discovery,
    present: &[Interface],
    joins: &[Join],
    removed: &[u32],
    index: u32,
)
    requires
        old(node)@.wf(),
        call_ensures(Discovery::update_interfaces, (node, present, joins, removed), ()),
    ensures
        ({
            let before = old(node)@.interfaces;
            let after = final(node)@.interfaces;
            let listed = exists|k: int|
                0 <= k < present@.len() && #[trigger] present@[k].index == index;
            let joined = exists|k: int|
                0 <= k < joins@.len() && #[trigger] joins@[k].index == index && (joins@[k].outcome
                    == JoinOutcome::Joined || joins@[k].outcome == JoinOutcome::AlreadyJoined);
            let gone = exists|k: int| 0 <= k < removed@.len() && #[trigger] removed@[k] == index;
            let had = exists|i: int|
                0 <= i < before.ifaces.len() && #[trigger] before.ifaces[i].scope_id == index;
            let has = exists|i: int|
                0 <= i < after.ifaces.len() && #[trigger] after.ifaces[i].scope_id == index;
            &&& after.known.contains(index) <==> (before.known.contains(index) || listed || joined)
                && !gone
            &&& has <==> (had || joined) && !gone
            &&& after.port == before.port
        }),
        final(node)@.wf(),
        final(node)@.namespace == old(node)@.namespace,
        final(node)@.last_nonce == old(node)@.last_nonce,
        final(node)@.listen_port == old(node)@.listen_port,
        final(node)@.zid == old(node)@.zid,
{
    law_change_of_the_interfaces(old(node)@.interfaces, present@, joins@, removed@, index);
}

/// After [`Discovery::resync_ifaces`], or [`Discovery::next`] on a resync, each known interface and
/// no other is announced on. The addresses that were there stay where they are, and the number
/// returned is that of the others. Nothing else of the node changes.
pub proof fn law_node_resync(node: &mut Discovery, buf: &[u8], restored: usize, index: u32)
    requires
        old(node)@.wf(),
        call_ensures(Discovery::resync_ifaces, (node,), restored) || call_ensures(
            Discovery::next,
            (node, Event::Resync, buf),
            Step::Resynced(restored),
        ),
    ensures
        ({
            let before = old(node)@.interfaces;
            let after = final(node)@.interfaces;
            &&& after.port == before.port
            &&& after.known == before.known
            &&& before.known.contains(index) <==> exists|i: int|
                0 <= i < after.ifaces.len() && #[trigger] after.ifaces[i].scope_id == index
            &&& after.ifaces.len() == before.ifaces.len() + restored
            &&& forall|i: int|
                0 <= i < before.ifaces.len() ==> #[trigger] after.ifaces[i] == before.ifaces[i]
        }),
        final(node)@.wf(),
        final(node)@.namespace == old(node)@.namespace,
        final(node)@.last_nonce == old(node)@.last_nonce,
        final(node)@.listen_port == old(node)@.listen_port,
        final(node)@.zid == old(node)@.zid,
{
    law_after_a_resync(old(node)@.interfaces, final(node)@.interfaces, index);
}

/// [`Discovery::announce`] leaves the node with a nonce that was drawn, and so does
/// [`Discovery::next`] on a tick. The announcement carries that nonce and the namespace of the
/// node, goes to every address of the node and to no other, and none of them has been served yet.
/// Nothing else of the node changes.
pub proof fn law_announce(
    node: &mut Discovery,
    buf: &[u8],
    announcement: Announcement,
    addr: SocketAddrV6,
)
    requires
        old(node)@.wf(),
        call_ensures(Discovery::announce, (node,), announcement) || call_ensures(
            Discovery::next,
            (node, Event::Tick, buf),
            Step::Announce(announcement),
        ),
    ensures
        drawn(final(node)@.last_nonce),
        announcement@.wf(),
        announcement@.datagram.len() == 20,
        starts_as(announcement@.datagram, 0),
        stands_at(announcement@.datagram, 4, final(node)@.last_nonce),
        stands_at(announcement@.datagram, 12, old(node)@.namespace),
        announcement@.targets.contains(addr) <==> old(node)@.interfaces.ifaces.contains(addr),
        announcement@.targets.len() == old(node)@.interfaces.ifaces.len(),
        forall|i: int|
            0 <= i < announcement@.targets.len() ==> #[trigger] announcement@.targets[i]
                == old(node)@.interfaces.ifaces[i],
        announcement@.pending == old(node)@.interfaces.ifaces.len(),
        final(node)@.wf(),
        final(node)@.interfaces == old(node)@.interfaces,
        final(node)@.namespace == old(node)@.namespace,
        final(node)@.listen_port == old(node)@.listen_port,
        final(node)@.zid == old(node)@.zid,
{
    law_announcement_goes_to_all(final(node)@, addr);
}

/// [`Discovery::announce_with`] leaves the node with the nonce given. The announcement carries that
/// nonce and the namespace of the node, goes to every address of the node and to no other, and none
/// of them has been served yet. Nothing else of the node changes.
pub proof fn law_announce_with(
    node: &mut Discovery,
    nonce: [u8; 8],
    announcement: Announcement,
    addr: SocketAddrV6,
)
    requires
        old(node)@.wf(),
        call_ensures(Discovery::announce_with, (node, nonce), announcement),
    ensures
        final(node)@.last_nonce == nonce@,
        announcement@.wf(),
        announcement@.datagram.len() == 20,
        starts_as(announcement@.datagram, 0),
        stands_at(announcement@.datagram, 4, nonce@),
        stands_at(announcement@.datagram, 12, old(node)@.namespace),
        announcement@.targets.contains(addr) <==> old(node)@.interfaces.ifaces.contains(addr),
        announcement@.targets.len() == old(node)@.interfaces.ifaces.len(),
        forall|i: int|
            0 <= i < announcement@.targets.len() ==> #[trigger] announcement@.targets[i]
                == old(node)@.interfaces.ifaces[i],
        announcement@.pending == old(node)@.interfaces.ifaces.len(),
        final(node)@.wf(),
        final(node)@.interfaces == old(node)@.interfaces,
        final(node)@.namespace == old(node)@.namespace,
        final(node)@.listen_port == old(node)@.listen_port,
        final(node)@.zid == old(node)@.zid,
{
    law_announcement_goes_to_all(final(node)@, addr);
}

/// [`Discovery::announce_sent`] serves the last of the targets that are left. If the system has no
/// way to it and it is among the addresses of the node, it is taken out; the last address takes its
/// place, and the others stay where they are. Else every address stays. Nothing else of the node or
/// of the announcement changes.
pub proof fn law_announce_sent(
    node: &mut Discovery,
    announcement: &mut Announcement,
    outcome: SendOutcome,
    pruned: bool,
    at: int,
)
    requires
        old(node)@.wf(),
        old(announcement)@.wf(),
        old(announcement)@.pending > 0,
        call_ensures(Discovery::announce_sent, (node, announcement, outcome), pruned),
    ensures
        final(announcement)@.wf(),
        final(announcement)@.datagram == old(announcement)@.datagram,
        final(announcement)@.targets == old(announcement)@.targets,
        final(announcement)@.pending == old(announcement)@.pending - 1,
        ({
            let target = old(announcement)@.targets[old(announcement)@.pending - 1];
            let before = old(node)@.interfaces.ifaces;
            let after = final(node)@.interfaces.ifaces;
            &&& pruned <==> outcome == SendOutcome::HostUnreachable && before.contains(target)
            &&& !pruned ==> after == before
            &&& pruned && 0 <= at < before.len() && before[at] == target ==> {
                &&& after.len() == before.len() - 1
                &&& at < before.len() - 1 ==> after[at] == before[before.len() - 1]
                &&& forall|i: int|
                    0 <= i < before.len() - 1 && i != at ==> #[trigger] after[i] == before[i]
            }
        }),
        final(node)@.interfaces.known == old(node)@.interfaces.known,
        final(node)@.interfaces.port == old(node)@.interfaces.port,
        final(node)@.wf(),
        final(node)@.namespace == old(node)@.namespace,
        final(node)@.last_nonce == old(node)@.last_nonce,
        final(node)@.listen_port == old(node)@.listen_port,
        final(node)@.zid == old(node)@.zid,
{
    let target = old(announcement)@.targets[old(announcement)@.pending - 1];
    law_after_a_send(old(node)@.interfaces, target, outcome, at);
}

/// Why [`Discovery::respond`] drops a datagram, in terms of its bytes: each reason if and only if.
pub proof fn law_respond(
    node: &Discovery,
    bytes_read: usize,
    from: SocketAddr,
    buf: &[u8],
    response: Response,
)
    requires
        node@.wf(),
        bytes_read <= buf@.len(),
        call_ensures(Discovery::respond, (node, bytes_read, from, buf), response),
    ensures
        ({
            let datagram = buf@.take(bytes_read as int);
            let hello = bytes_read == 20 && starts_as(datagram, 0);
            let whats_up = bytes_read == 30 && starts_as(datagram, 1);
            let own_nonce = stands_at(datagram, 4, node@.last_nonce);
            let own_namespace = stands_at(datagram, 12, node@.namespace);
            let zero_id = forall|i: int| 12 <= i < 28 ==> datagram[i] == 0;
            let own_id = stands_at(datagram, 12, node@.zid);
            &&& is_drop(response@, DropReason::EarlyEof) <==> bytes_read < 4
            &&& is_drop(response@, DropReason::WrongMagic) <==> bytes_read >= 4 && !starts_as(
                datagram,
                datagram[3],
            )
            &&& forall|kind: u8| #[trigger]
                is_drop(response@, DropReason::UnknownKind(kind)) <==> starts_as(datagram, kind)
                    && kind >= 2
            &&& is_drop(response@, DropReason::HelloWrongSize) <==> bytes_read != 20 && starts_as(
                datagram,
                0,
            )
            &&& is_drop(response@, DropReason::LocalHelloNonce) <==> hello && own_nonce
            &&& is_drop(response@, DropReason::DifferentNamespace) <==> hello && !own_nonce
                && !own_namespace
            &&& is_drop(response@, DropReason::WhatsUpWrongSize) <==> bytes_read != 30
                && starts_as(datagram, 1)
            &&& is_drop(response@, DropReason::StaleNonce) <==> whats_up && !own_nonce
            &&& is_drop(response@, DropReason::V4Address) <==> whats_up && own_nonce && from is V4
            &&& is_drop(response@, DropReason::InvalidZenohId) <==> whats_up && own_nonce
                && from is V6 && zero_id
            &&& is_drop(response@, DropReason::SelfZenohId) <==> whats_up && own_nonce
                && from is V6 && own_id
            &&& response is Reply <==> hello && !own_nonce && own_namespace
            &&& response is Found <==> whats_up && own_nonce && from is V6 && !zero_id && !own_id
        }),
{
    law_why_dropped(node@, buf@.take(bytes_read as int), from);
}

/// What is in a response of [`Discovery::respond`]. The reason of one that drops is the one that it
/// is seen to have. A reply goes to where the datagram came from, for the first time, and is thirty
/// bytes: those of a WhatsUp, the nonce of the datagram, the id of the node, and its port. A node
/// that is found has the id in the datagram, and the address that the datagram came from in every
/// part but the port; the port is the one in the datagram.
pub proof fn law_respond_fields(
    node: &Discovery,
    bytes_read: usize,
    from: SocketAddr,
    buf: &[u8],
    response: Response,
)
    requires
        node@.wf(),
        bytes_read <= buf@.len(),
        call_ensures(Discovery::respond, (node, bytes_read, from, buf), response),
    ensures
        response matches Response::Dropped(reason) ==> response@ == ResponseView::Dropped(reason),
        response matches Response::Reply(reply) ==> {
            &&& reply@.wf()
            &&& reply@.to == from
            &&& reply@.attempt == 1
            &&& reply@.datagram.len() == 30
            &&& starts_as(reply@.datagram, 1)
            &&& forall|i: int| 4 <= i < 12 ==> reply@.datagram[i] == buf@[i]
            &&& stands_at(reply@.datagram, 12, node@.zid)
            &&& reply@.datagram[28] + 256 * reply@.datagram[29] == node@.listen_port
        },
        response matches Response::Found(found) ==> {
            &&& forall|i: int| 0 <= i < 16 ==> #[trigger] found.zid@[i] == buf@[12 + i]
            &&& from is V6
            &&& found.addr.ip == from->V6_0.ip
            &&& found.addr.flowinfo == from->V6_0.flowinfo
            &&& found.addr.scope_id == from->V6_0.scope_id
            &&& found.addr.port == buf@[28] + 256 * buf@[29]
        },
{
    let datagram = buf@.take(bytes_read as int);
    law_why_dropped(node@, datagram, from);
    law_reply_bytes(node@, datagram, from);
    law_found_fields(node@, datagram, from);
    if let Response::Reply(reply) = response {
        assert forall|i: int| 4 <= i < 12 implies reply@.datagram[i] == buf@[i] by {
            assert(datagram[i] == buf@[i]);
        }
    }
    if let Response::Found(found) = response {
        assert forall|i: int| 0 <= i < 16 implies #[trigger] found.zid@[i] == buf@[12 + i] by {
            assert(datagram[12 + i] == buf@[12 + i]);
        }
    }
}

/// What [`Discovery::next`] does on an event: on a tick it announces, on a resync it resyncs, and
/// of a datagram it makes the response that [`Discovery::respond`] makes of it. A datagram and a
/// failure to receive one change nothing of the node.
pub proof fn law_next(
    node: &mut Discovery,
    event: Event,
    buf: &[u8],
    step: Step,
    before: &Discovery,
    response: Response,
)
    requires
        old(node)@.wf(),
        event matches Event::Received { bytes_read, addr } ==> bytes_read <= buf@.len(),
        call_ensures(Discovery::next, (node, event, buf), step),
        event matches Event::Received { bytes_read, addr } ==> before@ == old(node)@
            && call_ensures(Discovery::respond, (before, bytes_read, addr, buf), response),
    ensures
        event is Tick <==> step is Announce,
        event is Resync <==> step is Resynced,
        event is Received <==> step is Respond,
        event is ReceiveFailed <==> step is Skip,
        step matches Step::Respond(made) ==> made@ == response@,
        event is Received || event is ReceiveFailed ==> final(node)@ == old(node)@,
        final(node)@.wf(),
{
}

/// A datagram that is too long for the buffer, and so is cut off, is taken for no message.
pub proof fn law_cut_off_is_dropped(
    node: &Discovery,
    bytes_read: usize,
    from: SocketAddr,
    buf: &[u8],
    response: Response,
)
    requires
        node@.wf(),
        buf@.len() == RECEIVE_BUF_SIZE,
        bytes_read == RECEIVE_BUF_SIZE,
        call_ensures(Discovery::respond, (node, bytes_read, from, buf), response),
    ensures
        RECEIVE_BUF_SIZE == 51,
        response is Dropped,
{
    law_why_dropped(node@, buf@.take(bytes_read as int), from);
}

/// A node announces itself once a second and resyncs every ten seconds. A send may take half a
/// second, and a reply that did not get through is sent again after three tenths of one.
pub proof fn law_timing()
    ensures
        TICK_MS == 1_000,
        RESYNC_MS == 10 * TICK_MS,
        2 * SEND_TIMEOUT_MS == TICK_MS,
        10 * REPLY_PAUSE_MS == 3 * TICK_MS,
{
}

} // verus!
