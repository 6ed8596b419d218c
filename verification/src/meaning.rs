//! What the contracts come to, in bytes, fields and numbers.
//!
//! The contracts speak of datagrams, responses, addresses and interfaces through spec functions.
//! The laws here say of each what its values are: which byte stands where, which field is kept and
//! which is not, which interface is in and which is out.

use vstd::prelude::*;
use vstd::std_specs::cmp::PartialEqSpec;
use vstd::std_specs::convert::TryFromSpec;
use crate::addr::{SocketAddr, SocketAddrV6};
use crate::discovery::{DiscoveryView, DropReason, ResponseView};
use crate::interfaces::{
    group_addr, indices_to_join, listing, worth_joining, Interface, InterfacesView, Join,
    JoinOutcome,
};
use crate::message::{hello_wire, port_value, port_wire, whats_up_wire, Kind, UnknownKind};
use crate::send::{reply_step, AnnouncementView, SendOutcome};
use crate::zid::{is_zenoh_id, ZenohId};

verus! {

// ---- Messages ----

/// Whether those bytes stand in a datagram, one after the other, from a position on.
pub open spec fn stands_at(datagram: Seq<u8>, at: int, bytes: Seq<u8>) -> bool {
    forall|i: int| 0 <= i < bytes.len() ==> datagram[at + i] == #[trigger] bytes[i]
}

/// Whether a datagram starts with `EXO` and, behind it, that byte.
pub open spec fn starts_as(datagram: Seq<u8>, kind: u8) -> bool {
    &&& datagram.len() >= 4
    &&& datagram[0] == 0x45
    &&& datagram[1] == 0x58
    &&& datagram[2] == 0x4f
    &&& datagram[3] == kind
}

/// Bytes that stand at a position are the bytes there.
proof fn lemma_stands_at(datagram: Seq<u8>, at: int, bytes: Seq<u8>)
    requires
        0 <= at,
        at + bytes.len() <= datagram.len(),
    ensures
        stands_at(datagram, at, bytes) <==> datagram.subrange(at, at + bytes.len()) == bytes,
{
    let part = datagram.subrange(at, at + bytes.len());
    if stands_at(datagram, at, bytes) {
        assert(part =~= bytes);
    }
    if part == bytes {
        assert forall|i: int| 0 <= i < bytes.len() implies datagram[at + i]
            == #[trigger] bytes[i] by {
            assert(part[i] == bytes[i]);
        }
    }
}

/// The start of a datagram.
proof fn lemma_magic(datagram: Seq<u8>)
    requires
        datagram.len() >= 4,
    ensures
        datagram.take(3) == crate::message::MAGIC@ <==> starts_as(datagram, datagram[3]),
{
    let magic = crate::message::MAGIC@;
    let start = datagram.take(3);
    if start == magic {
        assert(start[0] == magic[0] && start[1] == magic[1] && start[2] == magic[2]);
    }
    if starts_as(datagram, datagram[3]) {
        assert(start =~= magic);
    }
}

/// A Hello datagram has twenty bytes: `EXO`, the byte 0, the nonce and the namespace.
pub proof fn law_hello_bytes(nonce: Seq<u8>, namespace: Seq<u8>)
    requires
        nonce.len() == 8,
        namespace.len() == 8,
    ensures
        hello_wire(nonce, namespace).len() == 20,
        starts_as(hello_wire(nonce, namespace), 0),
        stands_at(hello_wire(nonce, namespace), 4, nonce),
        stands_at(hello_wire(nonce, namespace), 12, namespace),
{
}

/// A WhatsUp datagram has thirty bytes: `EXO`, the byte 1, the nonce, the id, and the port with its
/// low byte first.
pub proof fn law_whats_up_bytes(nonce: Seq<u8>, zid: Seq<u8>, port: u16)
    requires
        nonce.len() == 8,
        zid.len() == 16,
    ensures
        whats_up_wire(nonce, zid, port_wire(port)).len() == 30,
        starts_as(whats_up_wire(nonce, zid, port_wire(port)), 1),
        stands_at(whats_up_wire(nonce, zid, port_wire(port)), 4, nonce),
        stands_at(whats_up_wire(nonce, zid, port_wire(port)), 12, zid),
        whats_up_wire(nonce, zid, port_wire(port))[28] + 256 * whats_up_wire(
            nonce,
            zid,
            port_wire(port),
        )[29] == port,
{
}

/// The bytes of a port, weighed, are the port; and a port is made of no other two bytes.
pub proof fn law_port_bytes(port: u16, port_le: Seq<u8>)
    requires
        port_le.len() == 2,
    ensures
        port_wire(port).len() == 2,
        port_wire(port)[0] + 256 * port_wire(port)[1] == port,
        port_value(port_le) == port_le[0] + 256 * port_le[1],
        port_value(port_le) == port <==> port_wire(port) == port_le,
{
    if port_value(port_le) == port {
        assert(port_wire(port) =~= port_le);
    }
}

/// The byte 0 stands for a Hello, 1 for a WhatsUp, and no other for anything.
pub proof fn law_kind_bytes(byte: u8)
    ensures
        Kind::Hello.code() == 0,
        Kind::WhatsUp.code() == 1,
        <Kind as TryFromSpec<u8>>::try_from_spec(byte) == Ok::<Kind, UnknownKind>(Kind::Hello)
            <==> byte == 0,
        <Kind as TryFromSpec<u8>>::try_from_spec(byte) == Ok::<Kind, UnknownKind>(Kind::WhatsUp)
            <==> byte == 1,
        <Kind as TryFromSpec<u8>>::try_from_spec(byte) is Err <==> byte >= 2,
{
}

// ---- Ids and addresses ----

/// Sixteen bytes are no Zenoh id if and only if every one of them is zero; no other number of bytes
/// is one.
pub proof fn law_zenoh_id(bytes: Seq<u8>)
    ensures
        bytes.len() != 16 ==> !is_zenoh_id(bytes),
        bytes.len() == 16 ==> (!is_zenoh_id(bytes) <==> forall|i: int|
            0 <= i < 16 ==> bytes[i] == 0),
{
}

/// Two ids are equal if and only if they agree in each byte.
pub proof fn law_equal_ids(a: ZenohId, b: ZenohId)
    requires
        a@.len() == 16,
        b@.len() == 16,
    ensures
        <ZenohId as PartialEqSpec>::obeys_eq_spec(),
        <ZenohId as PartialEqSpec>::eq_spec(&a, &b) <==> forall|i: int|
            0 <= i < 16 ==> a@[i] == b@[i],
{
    if forall|i: int| 0 <= i < 16 ==> a@[i] == b@[i] {
        assert(a@ =~= b@);
    }
}

/// At another port an address keeps its number, its flow information and its scope.
pub proof fn law_only_the_port_changes(addr: SocketAddrV6, port: u16)
    ensures
        addr.at_port(port).ip == addr.ip,
        addr.at_port(port).port == port,
        addr.at_port(port).flowinfo == addr.flowinfo,
        addr.at_port(port).scope_id == addr.scope_id,
{
}

/// The group's address on an interface is `ff12::e0a1:de89` at the port, with the interface as its
/// scope.
pub proof fn law_group_address(port: u16, index: u32)
    ensures
        group_addr(port, index).ip == 0xff12_0000_0000_0000_0000_0000_e0a1_de89,
        group_addr(port, index).port == port,
        group_addr(port, index).flowinfo == 0,
        group_addr(port, index).scope_id == index,
{
}

// ---- Responses ----

/// Why a datagram is dropped, in terms of its bytes: each reason if and only if.
pub proof fn law_why_dropped(node: DiscoveryView, datagram: Seq<u8>, from: SocketAddr)
    requires
        node.wf(),
    ensures
        ({
            let response = node.response(datagram, from);
            let hello = starts_as(datagram, 0) && datagram.len() == 20;
            let whats_up = starts_as(datagram, 1) && datagram.len() == 30;
            let own_nonce = stands_at(datagram, 4, node.last_nonce);
            let own_namespace = stands_at(datagram, 12, node.namespace);
            let zero_id = forall|i: int| 12 <= i < 28 ==> datagram[i] == 0;
            let own_id = stands_at(datagram, 12, node.zid);
            &&& response == ResponseView::Dropped(DropReason::EarlyEof) <==> datagram.len() < 4
            &&& response == ResponseView::Dropped(DropReason::WrongMagic) <==> datagram.len() >= 4
                && !starts_as(datagram, datagram[3])
            &&& forall|kind: u8| #[trigger]
                is_drop(response, DropReason::UnknownKind(kind)) <==> starts_as(datagram, kind)
                    && kind >= 2
            &&& response == ResponseView::Dropped(DropReason::HelloWrongSize) <==> starts_as(
                datagram,
                0,
            ) && datagram.len() != 20
            &&& response == ResponseView::Dropped(DropReason::LocalHelloNonce) <==> hello
                && own_nonce
            &&& response == ResponseView::Dropped(DropReason::DifferentNamespace) <==> hello
                && !own_nonce && !own_namespace
            &&& response == ResponseView::Dropped(DropReason::WhatsUpWrongSize) <==> starts_as(
                datagram,
                1,
            ) && datagram.len() != 30
            &&& response == ResponseView::Dropped(DropReason::StaleNonce) <==> whats_up
                && !own_nonce
            &&& response == ResponseView::Dropped(DropReason::V4Address) <==> whats_up && own_nonce
                && from is V4
            &&& response == ResponseView::Dropped(DropReason::InvalidZenohId) <==> whats_up
                && own_nonce && from is V6 && zero_id
            &&& response == ResponseView::Dropped(DropReason::SelfZenohId) <==> whats_up
                && own_nonce && from is V6 && own_id
            &&& response is Reply <==> hello && !own_nonce && own_namespace
            &&& response is Found <==> whats_up && own_nonce && from is V6 && !zero_id && !own_id
        }),
{
    let response = node.response(datagram, from);
    assert forall|kind: u8| #[trigger]
        is_drop(response, DropReason::UnknownKind(kind)) <==> starts_as(datagram, kind) && kind
            >= 2 by {
        if datagram.len() >= 4 {
            lemma_magic(datagram);
        }
    }
    if datagram.len() >= 4 {
        lemma_magic(datagram);
    }
    if datagram.len() == 20 || datagram.len() == 30 {
        lemma_stands_at(datagram, 4, node.last_nonce);
        lemma_stands_at(datagram, 12, node.namespace);
    }
    if datagram.len() == 30 {
        let zid = datagram.subrange(12, 28);
        lemma_stands_at(datagram, 12, node.zid);
        law_zenoh_id(zid);
        law_zenoh_id(node.zid);
        if forall|i: int| 12 <= i < 28 ==> datagram[i] == 0 {
            assert(forall|i: int| 0 <= i < 16 ==> zid[i] == datagram[12 + i]);
        }
        if forall|i: int| 0 <= i < 16 ==> zid[i] == 0 {
            assert forall|i: int| 12 <= i < 28 implies datagram[i] == 0 by {
                assert(zid[i - 12] == datagram[i]);
            }
        }
    }
}

/// Whether a response is to drop the datagram for that reason.
pub open spec fn is_drop(response: ResponseView, reason: DropReason) -> bool {
    response == ResponseView::Dropped(reason)
}

/// A reply goes to where the datagram came from, for the first time, and is thirty bytes: those of
/// a WhatsUp, the nonce of the datagram, the id of the node, and its port.
pub proof fn law_reply_bytes(node: DiscoveryView, datagram: Seq<u8>, from: SocketAddr)
    requires
        node.wf(),
    ensures
        node.response(datagram, from) matches ResponseView::Reply(reply) ==> {
            &&& reply.to == from
            &&& reply.attempt == 1
            &&& reply.datagram.len() == 30
            &&& starts_as(reply.datagram, 1)
            &&& forall|i: int| 4 <= i < 12 ==> reply.datagram[i] == datagram[i]
            &&& stands_at(reply.datagram, 12, node.zid)
            &&& reply.datagram[28] + 256 * reply.datagram[29] == node.listen_port
        },
{
    if node.response(datagram, from) is Reply {
        law_why_dropped(node, datagram, from);
        let nonce = datagram.subrange(4, 12);
        law_whats_up_bytes(nonce, node.zid, node.listen_port);
        let reply = node.response(datagram, from)->Reply_0;
        assert forall|i: int| 4 <= i < 12 implies reply.datagram[i] == datagram[i] by {
            assert(nonce[i - 4] == datagram[i]);
        }
    }
}

/// A node that is found has the id in the datagram, and the address that the datagram came from, in
/// every part but the port; the port is the one in the datagram.
pub proof fn law_found_fields(node: DiscoveryView, datagram: Seq<u8>, from: SocketAddr)
    requires
        node.wf(),
    ensures
        node.response(datagram, from) matches ResponseView::Found { zid, addr } ==> {
            &&& zid.len() == 16
            &&& forall|i: int| 0 <= i < 16 ==> #[trigger] zid[i] == datagram[12 + i]
            &&& from is V6
            &&& addr.ip == from->V6_0.ip
            &&& addr.flowinfo == from->V6_0.flowinfo
            &&& addr.scope_id == from->V6_0.scope_id
            &&& addr.port == datagram[28] + 256 * datagram[29]
        },
{
}

/// The announcement of one node of a namespace makes another answer, and the answer makes the first
/// find the other: its id, at the address that the answer came from in every part but the port, and
/// at the other's port.
pub proof fn law_found_is_the_answering_node(
    asking: DiscoveryView,
    answering: DiscoveryView,
    asking_addr: SocketAddr,
    answering_addr: SocketAddrV6,
)
    requires
        asking.wf(),
        answering.wf(),
        asking.namespace == answering.namespace,
        asking.last_nonce != answering.last_nonce,
        asking.zid != answering.zid,
    ensures
        answering.response(asking.announcement().datagram, asking_addr) is Reply,
        ({
            let reply = answering.response(asking.announcement().datagram, asking_addr)->Reply_0;
            let found = asking.response(reply.datagram, SocketAddr::V6(answering_addr));
            &&& reply.to == asking_addr
            &&& found matches ResponseView::Found { zid, addr }
            &&& zid == answering.zid
            &&& addr.ip == answering_addr.ip
            &&& addr.flowinfo == answering_addr.flowinfo
            &&& addr.scope_id == answering_addr.scope_id
            &&& addr.port == answering.listen_port
        }),
{
    crate::laws::law_nodes_find_each_other(asking, answering, asking_addr, answering_addr);
}

/// A node that takes a new nonce changes in nothing else, and so does one that takes other
/// interfaces.
pub proof fn law_the_rest_stays(node: DiscoveryView, nonce: Seq<u8>, interfaces: InterfacesView)
    ensures
        node.with_nonce(nonce).last_nonce == nonce,
        node.with_nonce(nonce).interfaces == node.interfaces,
        node.with_nonce(nonce).namespace == node.namespace,
        node.with_nonce(nonce).listen_port == node.listen_port,
        node.with_nonce(nonce).zid == node.zid,
        node.with_interfaces(interfaces).interfaces == interfaces,
        node.with_interfaces(interfaces).last_nonce == node.last_nonce,
        node.with_interfaces(interfaces).namespace == node.namespace,
        node.with_interfaces(interfaces).listen_port == node.listen_port,
        node.with_interfaces(interfaces).zid == node.zid,
{
}

// ---- Announcements and replies on their way ----

/// The announcement of a node is twenty bytes, those of a Hello with its last nonce and its
/// namespace, and has yet to go to every address that is announced on, and to no other.
pub proof fn law_announcement_goes_to_all(node: DiscoveryView, addr: SocketAddrV6)
    requires
        node.wf(),
    ensures
        node.announcement().targets.contains(addr) <==> node.interfaces.ifaces.contains(addr),
        node.announcement().targets.len() == node.interfaces.ifaces.len(),
        forall|i: int|
            0 <= i < node.interfaces.ifaces.len() ==> #[trigger] node.announcement().targets[i]
                == node.interfaces.ifaces[i],
        node.announcement().pending == node.interfaces.ifaces.len(),
        node.announcement().datagram.len() == 20,
        starts_as(node.announcement().datagram, 0),
        stands_at(node.announcement().datagram, 4, node.last_nonce),
        stands_at(node.announcement().datagram, 12, node.namespace),
{
    law_hello_bytes(node.last_nonce, node.namespace);
}

/// The targets that an announcement is sent to from here on, in the order in which they are served
/// until none is left.
pub open spec fn served(announcement: AnnouncementView) -> Seq<SocketAddrV6>
    decreases announcement.pending,
{
    if announcement.pending == 0 {
        Seq::empty()
    } else {
        let next = announcement.advanced();
        if next.pending < announcement.pending {
            seq![announcement.target()] + served(next)
        } else {
            seq![announcement.target()]
        }
    }
}

/// The datagram and the targets of an announcement stay, and of the targets that are left each is
/// served once, from the last to the first.
pub proof fn law_each_target_is_served_once(announcement: AnnouncementView)
    requires
        announcement.wf(),
    ensures
        announcement.pending > 0 ==> {
            &&& announcement.advanced().datagram == announcement.datagram
            &&& announcement.advanced().targets == announcement.targets
            &&& announcement.advanced().pending + 1 == announcement.pending
        },
        served(announcement).len() == announcement.pending,
        forall|i: int|
            0 <= i < announcement.pending ==> #[trigger] served(announcement)[i]
                == announcement.targets[announcement.pending - 1 - i],
    decreases announcement.pending,
{
    if announcement.pending > 0 {
        let next = announcement.advanced();
        law_each_target_is_served_once(next);
        assert forall|i: int| 0 <= i < announcement.pending implies #[trigger] served(
            announcement,
        )[i] == announcement.targets[announcement.pending - 1 - i] by {
            if i > 0 {
                assert(served(announcement)[i] == served(next)[i - 1]);
            }
        }
    }
}

/// An announcement is sent to every address that is announced on, to none twice, and to no other.
pub proof fn law_announcement_reaches_all_once(node: DiscoveryView, addr: SocketAddrV6)
    requires
        node.wf(),
    ensures
        served(node.announcement()).contains(addr) <==> node.interfaces.ifaces.contains(addr),
        served(node.announcement()).no_duplicates(),
        served(node.announcement()).len() == node.interfaces.ifaces.len(),
{
    let ifaces = node.interfaces.ifaces;
    let all = served(node.announcement());
    law_announcement_goes_to_all(node, addr);
    law_each_target_is_served_once(node.announcement());
    if ifaces.contains(addr) {
        let i = ifaces.index_of(addr);
        assert(all[ifaces.len() - 1 - i] == addr);
    }
    if all.contains(addr) {
        let i = all.index_of(addr);
        assert(ifaces[ifaces.len() - 1 - i] == addr);
    }
}

/// What follows an attempt to send a reply: it is delivered if and only if thirty bytes were sent;
/// else it is sent again up to the fifth attempt, after which it is given up.
pub proof fn law_reply_step(attempt: nat, outcome: SendOutcome)
    ensures
        reply_step(attempt, outcome) is Delivered <==> outcome == SendOutcome::Sent(30),
        reply_step(attempt, outcome) is Retry <==> outcome != SendOutcome::Sent(30) && attempt < 5,
        reply_step(attempt, outcome) is GiveUp <==> outcome != SendOutcome::Sent(30) && attempt
            >= 5,
{
}

// ---- Interfaces ----

/// Every address that is announced on is the multicast group's, at the discovery port, on a known
/// interface; and no two are on the same interface.
pub proof fn law_addresses_announced_on(interfaces: InterfacesView)
    requires
        interfaces.wf(),
    ensures
        forall|i: int|
            #![trigger interfaces.ifaces[i]]
            0 <= i < interfaces.ifaces.len() ==> {
                &&& interfaces.ifaces[i].ip == 0xff12_0000_0000_0000_0000_0000_e0a1_de89
                &&& interfaces.ifaces[i].port == interfaces.port
                &&& interfaces.ifaces[i].flowinfo == 0
                &&& interfaces.known.contains(interfaces.ifaces[i].scope_id)
            },
        forall|i: int, j: int|
            0 <= i < j < interfaces.ifaces.len() ==> #[trigger] interfaces.ifaces[i].scope_id
                != #[trigger] interfaces.ifaces[j].scope_id,
{
    assert forall|i: int|
        #![trigger interfaces.ifaces[i]]
        0 <= i < interfaces.ifaces.len() implies {
        &&& interfaces.ifaces[i].ip == 0xff12_0000_0000_0000_0000_0000_e0a1_de89
        &&& interfaces.ifaces[i].port == interfaces.port
        &&& interfaces.ifaces[i].flowinfo == 0
        &&& interfaces.known.contains(interfaces.ifaces[i].scope_id)
    } by {
        assert(interfaces.is_known_addr(interfaces.ifaces[i]));
    }
    assert forall|i: int, j: int| 0 <= i < j < interfaces.ifaces.len() implies #[trigger]
        interfaces.ifaces[i].scope_id != #[trigger] interfaces.ifaces[j].scope_id by {
        assert(interfaces.is_known_addr(interfaces.ifaces[i]));
        assert(interfaces.is_known_addr(interfaces.ifaces[j]));
        assert(interfaces.ifaces[i] != interfaces.ifaces[j]);
    }
}

/// An interface is announced on if and only if one of the addresses has it as its scope.
pub proof fn law_announced_on(interfaces: InterfacesView, index: u32)
    requires
        interfaces.wf(),
    ensures
        interfaces.announces_on(index) <==> exists|i: int|
            0 <= i < interfaces.ifaces.len() && #[trigger] interfaces.ifaces[i].scope_id == index,
{
    if interfaces.announces_on(index) {
        let i = interfaces.ifaces.index_of(group_addr(interfaces.port, index));
        assert(interfaces.ifaces[i].scope_id == index);
    }
    if exists|i: int|
        0 <= i < interfaces.ifaces.len() && #[trigger] interfaces.ifaces[i].scope_id == index {
        let i = choose|i: int|
            0 <= i < interfaces.ifaces.len() && #[trigger] interfaces.ifaces[i].scope_id == index;
        assert(interfaces.is_known_addr(interfaces.ifaces[i]));
    }
}

/// An interface is in a listing if and only if one of those listed has its index.
pub proof fn law_listed(present: Seq<Interface>, index: u32)
    ensures
        listing(present).contains(index) <==> exists|k: int|
            0 <= k < present.len() && #[trigger] present[k].index == index,
{
    let indices = present.map_values(|i: Interface| i.index);
    if listing(present).contains(index) {
        let k = indices.index_of(index);
        assert(present[k].index == index);
    }
    if exists|k: int| 0 <= k < present.len() && #[trigger] present[k].index == index {
        let k = choose|k: int| 0 <= k < present.len() && #[trigger] present[k].index == index;
        assert(indices[k] == index);
    }
}

/// The group is to be joined on an interface if and only if one of its addresses is neither `::`
/// nor `::1`, whatever the others are and wherever it stands.
pub proof fn law_worth_joining(ipv6: Seq<u128>)
    ensures
        worth_joining(ipv6) <==> exists|i: int|
            0 <= i < ipv6.len() && #[trigger] ipv6[i] != 0 && ipv6[i] != 1,
        !worth_joining(ipv6) <==> forall|i: int|
            0 <= i < ipv6.len() ==> #[trigger] ipv6[i] == 0 || ipv6[i] == 1,
{
}

/// More addresses, before or behind, never make an interface not worth joining; and they make it
/// worth joining only if it is so by them alone.
pub proof fn law_more_addresses(before: Seq<u128>, ipv6: Seq<u128>, behind: Seq<u128>)
    ensures
        worth_joining(before + ipv6 + behind) <==> worth_joining(before) || worth_joining(ipv6)
            || worth_joining(behind),
{
    let all = before + ipv6 + behind;
    if worth_joining(before) {
        let i = choose|i: int| 0 <= i < before.len() && before[i] != 1 && before[i] != 0;
        assert(all[i] == before[i]);
    }
    if worth_joining(ipv6) {
        let i = choose|i: int| 0 <= i < ipv6.len() && ipv6[i] != 1 && ipv6[i] != 0;
        assert(all[before.len() + i] == ipv6[i]);
    }
    if worth_joining(behind) {
        let i = choose|i: int| 0 <= i < behind.len() && behind[i] != 1 && behind[i] != 0;
        assert(all[before.len() + ipv6.len() + i] == behind[i]);
    }
}

/// The group is to be joined on an interface if and only if one of that index is listed with an
/// address that is neither `::` nor `::1`.
pub proof fn law_to_join(present: Seq<Interface>, index: u32)
    ensures
        indices_to_join(present).contains(index) <==> exists|k: int, i: int|
            0 <= k < present.len() && present[k].index == index && 0 <= i < present[k].ipv6@.len()
                && #[trigger] present[k].ipv6@[i] != 0 && present[k].ipv6@[i] != 1,
{
    let worth = |i: Interface| worth_joining(i.ipv6@);
    let chosen = present.filter(worth);
    let indices = indices_to_join(present);
    if indices.contains(index) {
        let c = indices.index_of(index);
        present.lemma_filter_pred(worth, c);
        present.lemma_filter_contains_rev(worth, chosen[c]);
        let k = present.index_of(chosen[c]);
        let i = choose|i: int|
            0 <= i < present[k].ipv6@.len() && present[k].ipv6@[i] != 1 && present[k].ipv6@[i]
                != 0;
        assert(present[k].ipv6@[i] != 0);
    }
    if exists|k: int, i: int|
        0 <= k < present.len() && present[k].index == index && 0 <= i < present[k].ipv6@.len()
            && #[trigger] present[k].ipv6@[i] != 0 && present[k].ipv6@[i] != 1 {
        let (k, i) = choose|k: int, i: int|
            0 <= k < present.len() && present[k].index == index && 0 <= i < present[k].ipv6@.len()
                && #[trigger] present[k].ipv6@[i] != 0 && present[k].ipv6@[i] != 1;
        law_worth_joining(present[k].ipv6@);
        present.lemma_filter_contains(worth, k);
        let c = chosen.index_of(present[k]);
        assert(indices[c] == index);
    }
}

/// Whether the group is to be joined on an interface does not depend on the others, and the indices
/// come in the order of the listing, each as often as it is listed.
pub proof fn law_to_join_one_by_one(first: Seq<Interface>, second: Seq<Interface>, one: Interface)
    ensures
        indices_to_join(first + second) == indices_to_join(first) + indices_to_join(second),
        indices_to_join(Seq::empty()) == Seq::<u32>::empty(),
        indices_to_join(seq![one]) == if exists|i: int|
            0 <= i < one.ipv6@.len() && #[trigger] one.ipv6@[i] != 0 && one.ipv6@[i] != 1 {
            seq![one.index]
        } else {
            Seq::empty()
        },
{
    let worth = |i: Interface| worth_joining(i.ipv6@);
    Seq::filter_distributes_over_add(first, second, worth);
    assert(indices_to_join(first + second) =~= indices_to_join(first) + indices_to_join(second));
    reveal_with_fuel(Seq::filter, 2);
    assert(seq![one].drop_last() =~= Seq::<Interface>::empty());
    law_worth_joining(one.ipv6@);
    assert(indices_to_join(Seq::empty()) =~= Seq::<u32>::empty());
}

/// A join makes an interface known and announced on. It moves no address; a new one comes last.
pub proof fn law_join(before: InterfacesView, index: u32)
    requires
        before.wf(),
    ensures
        ({
            let after = before.joined(index);
            let there = exists|i: int|
                0 <= i < before.ifaces.len() && #[trigger] before.ifaces[i].scope_id == index;
            &&& after.port == before.port
            &&& forall|other: u32| #[trigger]
                after.known.contains(other) <==> before.known.contains(other) || other == index
            &&& after.ifaces.len() == before.ifaces.len() + if there {
                0int
            } else {
                1int
            }
            &&& forall|i: int|
                0 <= i < before.ifaces.len() ==> #[trigger] after.ifaces[i] == before.ifaces[i]
            &&& !there ==> after.ifaces[before.ifaces.len() as int].scope_id == index
        }),
{
    law_announced_on(before, index);
}

/// Attempts to join are taken one after the other, and one that failed changes nothing.
pub proof fn law_joins_one_by_one(
    before: InterfacesView,
    first: Seq<Join>,
    second: Seq<Join>,
    one: Join,
)
    ensures
        before.joined_all(first + second) == before.joined_all(first).joined_all(second),
        before.joined_all(Seq::empty()) == before,
        before.joined_all(seq![one]) == if one.outcome == JoinOutcome::Failed {
            before
        } else {
            before.joined(one.index)
        },
    decreases second.len(),
{
    if second.len() > 0 {
        law_joins_one_by_one(before, first, second.drop_last(), one);
        assert((first + second).drop_last() =~= first + second.drop_last());
        assert((first + second).last() == second.last());
    } else {
        assert(first + second =~= first);
    }
    reveal_with_fuel(InterfacesView::joined_all, 2);
    assert(seq![one].drop_last() =~= Seq::<Join>::empty());
}

/// Whether one address stands somewhere before another.
pub open spec fn stands_before(
    addrs: Seq<SocketAddrV6>,
    first: SocketAddrV6,
    second: SocketAddrV6,
) -> bool {
    exists|i: int, j: int|
        0 <= i < j < addrs.len() && #[trigger] addrs[i] == first && #[trigger] addrs[j] == second
}

/// A filter keeps the order.
proof fn lemma_filter_keeps_order(
    addrs: Seq<SocketAddrV6>,
    keep: spec_fn(SocketAddrV6) -> bool,
    i: int,
    j: int,
)
    requires
        0 <= i < j < addrs.filter(keep).len(),
    ensures
        stands_before(addrs, addrs.filter(keep)[i], addrs.filter(keep)[j]),
    decreases addrs.len(),
{
    reveal(Seq::filter);
    let rest = addrs.drop_last();
    let first = addrs.filter(keep)[i];
    let second = addrs.filter(keep)[j];
    if j < rest.filter(keep).len() {
        lemma_filter_keeps_order(rest, keep, i, j);
        let (k, l) = choose|k: int, l: int|
            0 <= k < l < rest.len() && #[trigger] rest[k] == first && #[trigger] rest[l] == second;
        assert(addrs[k] == first && addrs[l] == second);
    } else {
        rest.lemma_filter_contains_rev(keep, first);
        assert(addrs[rest.index_of(first)] == first && addrs[addrs.len() - 1] == second);
    }
}

/// An interface that goes is neither known nor announced on. The addresses of the others stay, in
/// the order in which they were.
pub proof fn law_removal(before: InterfacesView, index: u32)
    requires
        before.wf(),
    ensures
        before.removed(index).port == before.port,
        forall|other: u32| #[trigger]
            before.removed(index).known.contains(other) <==> before.known.contains(other) && other
                != index,
        forall|addr: SocketAddrV6| #[trigger]
            before.removed(index).ifaces.contains(addr) <==> before.ifaces.contains(addr)
                && addr.scope_id != index,
        before.removed(index).ifaces.no_duplicates(),
        forall|first: SocketAddrV6, second: SocketAddrV6| #[trigger]
            stands_before(before.removed(index).ifaces, first, second) ==> stands_before(
                before.ifaces,
                first,
                second,
            ),
{
    let keep = |addr: SocketAddrV6| addr.scope_id != index;
    let left = before.removed(index).ifaces;
    before.lemma_removed_wf(index);
    assert forall|addr: SocketAddrV6| #[trigger]
        left.contains(addr) <==> before.ifaces.contains(addr) && addr.scope_id != index by {
        if left.contains(addr) {
            before.ifaces.lemma_filter_contains_rev(keep, addr);
            before.ifaces.lemma_filter_pred(keep, left.index_of(addr));
        }
        if before.ifaces.contains(addr) && addr.scope_id != index {
            before.ifaces.lemma_filter_contains(keep, before.ifaces.index_of(addr));
        }
    }
    assert forall|first: SocketAddrV6, second: SocketAddrV6| #[trigger]
        stands_before(left, first, second) implies stands_before(
        before.ifaces,
        first,
        second,
    ) by {
        let (i, j) = choose|i: int, j: int|
            0 <= i < j < left.len() && #[trigger] left[i] == first && #[trigger] left[j] == second;
        lemma_filter_keeps_order(before.ifaces, keep, i, j);
    }
}

/// Interfaces go one after the other.
pub proof fn law_removals_one_by_one(
    before: InterfacesView,
    first: Seq<u32>,
    second: Seq<u32>,
    one: u32,
)
    ensures
        before.removed_all(first + second) == before.removed_all(first).removed_all(second),
        before.removed_all(Seq::empty()) == before,
        before.removed_all(seq![one]) == before.removed(one),
    decreases second.len(),
{
    if second.len() > 0 {
        law_removals_one_by_one(before, first, second.drop_last(), one);
        assert((first + second).drop_last() =~= first + second.drop_last());
        assert((first + second).last() == second.last());
    } else {
        assert(first + second =~= first);
    }
    reveal_with_fuel(InterfacesView::removed_all, 2);
    assert(seq![one].drop_last() =~= Seq::<u32>::empty());
}

/// After a change of the interfaces, one is known if and only if it was so, is listed or was
/// joined, and has not gone; and one of the addresses has it as its scope if and only if one had so
/// or it was joined, and it has not gone.
pub proof fn law_change_of_the_interfaces(
    before: InterfacesView,
    present: Seq<Interface>,
    joins: Seq<Join>,
    removed: Seq<u32>,
    index: u32,
)
    requires
        before.wf(),
    ensures
        ({
            let after = before.updated(present, joins, removed);
            let listed = exists|k: int|
                0 <= k < present.len() && #[trigger] present[k].index == index;
            let joined = exists|k: int|
                0 <= k < joins.len() && #[trigger] joins[k].index == index && (joins[k].outcome
                    == JoinOutcome::Joined || joins[k].outcome == JoinOutcome::AlreadyJoined);
            let gone = exists|k: int| 0 <= k < removed.len() && #[trigger] removed[k] == index;
            let had = exists|i: int|
                0 <= i < before.ifaces.len() && #[trigger] before.ifaces[i].scope_id == index;
            let has = exists|i: int|
                0 <= i < after.ifaces.len() && #[trigger] after.ifaces[i].scope_id == index;
            &&& after.port == before.port
            &&& after.known.contains(index) <==> (before.known.contains(index) || listed || joined)
                && !gone
            &&& has <==> (had || joined) && !gone
        }),
{
    let after = before.updated(present, joins, removed);
    crate::interface_laws::law_update(before, present, joins, removed, index);
    law_listed(present, index);
    law_announced_on(before, index);
    law_announced_on(after, index);
    let joined = exists|k: int|
        0 <= k < joins.len() && #[trigger] joins[k].index == index && (joins[k].outcome
            == JoinOutcome::Joined || joins[k].outcome == JoinOutcome::AlreadyJoined);
    assert(joined <==> crate::interface_laws::joined_by(joins, index)) by {
        if joined {
            let k = choose|k: int|
                0 <= k < joins.len() && #[trigger] joins[k].index == index && (joins[k].outcome
                    == JoinOutcome::Joined || joins[k].outcome == JoinOutcome::AlreadyJoined);
            assert(joins[k].index == index && !(joins[k].outcome is Failed));
        }
        if crate::interface_laws::joined_by(joins, index) {
            let k = choose|k: int|
                0 <= k < joins.len() && #[trigger] joins[k].index == index && !(
                joins[k].outcome is Failed);
            assert(joins[k].index == index);
        }
    }
}

/// A listing moves no address.
pub proof fn law_listing_moves_nothing(before: InterfacesView, present: Seq<Interface>)
    ensures
        before.seen_all(present).ifaces == before.ifaces,
        before.seen_all(present).port == before.port,
        forall|joins: Seq<Join>, removed: Seq<u32>| #[trigger]
            before.updated(present, joins, removed) == before.seen_all(present).joined_all(
                joins,
            ).removed_all(removed),
        before.seen_all(Seq::empty()).known == before.known,
{
    assert(before.seen_all(Seq::empty()).known =~= before.known) by {
        assert forall|index: u32| !listing(Seq::empty()).contains(index) by {
            law_listed(Seq::empty(), index);
        }
    }
}

/// What a send does to the addresses. Unless the system has no way to an address that is there,
/// everything stays. Else that address alone goes, its place is taken by the last one, and the
/// others stay where they are.
pub proof fn law_after_a_send(
    before: InterfacesView,
    target: SocketAddrV6,
    outcome: SendOutcome,
    at: int,
)
    requires
        before.wf(),
    ensures
        ({
            let after = before.after_send(target, outcome);
            let len = before.ifaces.len();
            &&& after.known == before.known
            &&& after.port == before.port
            &&& outcome != SendOutcome::HostUnreachable ==> after.ifaces == before.ifaces
            &&& !before.ifaces.contains(target) ==> after.ifaces == before.ifaces
            &&& outcome == SendOutcome::HostUnreachable && 0 <= at < len && before.ifaces[at]
                == target ==> {
                &&& after.ifaces.len() == len - 1
                &&& at < len - 1 ==> after.ifaces[at] == before.ifaces[len - 1]
                &&& forall|i: int|
                    0 <= i < len - 1 && i != at ==> #[trigger] after.ifaces[i] == before.ifaces[i]
            }
        }),
{
    if 0 <= at < before.ifaces.len() && before.ifaces[at] == target {
        assert(before.ifaces.contains(target));
        assert(before.ifaces.index_of(target) == at);
    }
}

/// A resync keeps what is known and every address where it is, and brings it about that each known
/// interface, and no other, is the scope of exactly one address.
pub proof fn law_after_a_resync(before: InterfacesView, after: InterfacesView, index: u32)
    requires
        before.wf(),
        before.resynced(after),
    ensures
        after.known == before.known,
        after.port == before.port,
        before.ifaces.len() <= after.ifaces.len(),
        forall|i: int|
            0 <= i < before.ifaces.len() ==> #[trigger] after.ifaces[i] == before.ifaces[i],
        before.known.contains(index) <==> exists|i: int|
            0 <= i < after.ifaces.len() && #[trigger] after.ifaces[i].scope_id == index,
        forall|i: int, j: int|
            0 <= i < j < after.ifaces.len() ==> #[trigger] after.ifaces[i].scope_id
                != #[trigger] after.ifaces[j].scope_id,
{
    crate::interface_laws::law_resync_restores_all_known(before, after, index);
    law_announced_on(after, index);
    law_addresses_announced_on(after);
}

} // verus!
