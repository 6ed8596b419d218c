//! What holds of the protocol as a whole.
//!
//! Each law is stated over the same spec functions that the contracts of the executable functions
//! are stated over.

use vstd::prelude::*;
use vstd::std_specs::convert::TryFromSpec;
use crate::addr::{SocketAddr, SocketAddrV6};
use crate::discovery::{DiscoveryView, DropReason, ResponseView};
use crate::message::{
    header_wire, hello_wire, port_value, port_wire, whats_up_wire, Kind, UnknownKind, HEADER_SIZE,
    HELLO_SIZE, MAGIC, WHATS_UP_SIZE,
};
use crate::send::{reply_step, ReplyStep, ReplyView, SendOutcome, REPLY_ATTEMPTS};
use crate::zid::is_zenoh_id;

verus! {

/// A datagram's header announces a message of that kind.
pub open spec fn has_header(datagram: Seq<u8>, kind: Kind) -> bool {
    &&& datagram.len() >= HEADER_SIZE
    &&& datagram.take(HEADER_SIZE as int) == header_wire(kind)
}

/// The header, taken apart.
proof fn lemma_header(datagram: Seq<u8>, kind: Kind)
    requires
        datagram.len() >= HEADER_SIZE,
    ensures
        has_header(datagram, kind) <==> datagram.take(3) == MAGIC@ && datagram[3] == kind.code(),
{
    let header = datagram.take(HEADER_SIZE as int);
    if has_header(datagram, kind) {
        assert(datagram.take(3) =~= header.take(3));
        assert(header.take(3) =~= MAGIC@);
        assert(datagram[3] == header[3]);
    }
    if datagram.take(3) == MAGIC@ && datagram[3] == kind.code() {
        assert forall|i: int| 0 <= i < 3 implies header[i] == MAGIC@[i] by {
            assert(datagram.take(3)[i] == datagram[i]);
        }
        assert(header =~= header_wire(kind));
    }
}

/// A [`Hello`](crate::message::Hello) that is read back from its datagram is the one that was
/// written.
pub proof fn law_hello_read_back(nonce: Seq<u8>, namespace: Seq<u8>)
    requires
        nonce.len() == 8,
        namespace.len() == 8,
    ensures
        hello_wire(nonce, namespace).len() == HELLO_SIZE,
        has_header(hello_wire(nonce, namespace), Kind::Hello),
        hello_wire(nonce, namespace).subrange(4, 12) == nonce,
        hello_wire(nonce, namespace).subrange(12, 20) == namespace,
{
    let datagram = hello_wire(nonce, namespace);
    assert(datagram.take(HEADER_SIZE as int) =~= header_wire(Kind::Hello));
    assert(datagram.subrange(4, 12) =~= nonce);
    assert(datagram.subrange(12, 20) =~= namespace);
}

/// A [`WhatsUp`](crate::message::WhatsUp) that is read back from its datagram is the one that was
/// written.
pub proof fn law_whats_up_read_back(nonce: Seq<u8>, zid: Seq<u8>, port_le: Seq<u8>)
    requires
        nonce.len() == 8,
        zid.len() == 16,
        port_le.len() == 2,
    ensures
        whats_up_wire(nonce, zid, port_le).len() == WHATS_UP_SIZE,
        has_header(whats_up_wire(nonce, zid, port_le), Kind::WhatsUp),
        whats_up_wire(nonce, zid, port_le).subrange(4, 12) == nonce,
        whats_up_wire(nonce, zid, port_le).subrange(12, 28) == zid,
        whats_up_wire(nonce, zid, port_le).subrange(28, 30) == port_le,
{
    let datagram = whats_up_wire(nonce, zid, port_le);
    assert(datagram.take(HEADER_SIZE as int) =~= header_wire(Kind::WhatsUp));
    assert(datagram.subrange(4, 12) =~= nonce);
    assert(datagram.subrange(12, 28) =~= zid);
    assert(datagram.subrange(28, 30) =~= port_le);
}

/// A datagram of the length and with the header of a [`Hello`](crate::message::Hello) is the one
/// that the message in it is written as.
pub proof fn law_hello_written_back(datagram: Seq<u8>)
    requires
        datagram.len() == HELLO_SIZE,
        has_header(datagram, Kind::Hello),
    ensures
        hello_wire(datagram.subrange(4, 12), datagram.subrange(12, 20)) == datagram,
{
    let header = datagram.take(HEADER_SIZE as int);
    assert(datagram =~= header + datagram.subrange(4, 12) + datagram.subrange(12, 20));
}

/// A datagram of the length and with the header of a [`WhatsUp`](crate::message::WhatsUp) is the
/// one that the message in it is written as.
pub proof fn law_whats_up_written_back(datagram: Seq<u8>)
    requires
        datagram.len() == WHATS_UP_SIZE,
        has_header(datagram, Kind::WhatsUp),
    ensures
        whats_up_wire(
            datagram.subrange(4, 12),
            datagram.subrange(12, 28),
            datagram.subrange(28, 30),
        ) == datagram,
{
    let header = datagram.take(HEADER_SIZE as int);
    assert(datagram =~= header + datagram.subrange(4, 12) + datagram.subrange(12, 28)
        + datagram.subrange(28, 30));
}

/// A port that is read back from its two bytes is the one that was written.
pub proof fn law_port_read_back(port: u16)
    ensures
        port_value(port_wire(port)) == port,
{
    assert(port as int == port % 256 + 256 * (port / 256));
}

/// Two bytes that are read as a port are the bytes that the port is written as.
pub proof fn law_port_written_back(port_le: Seq<u8>)
    requires
        port_le.len() == 2,
    ensures
        port_wire(port_value(port_le)) == port_le,
{
    let port = port_value(port_le);
    assert(port as int == port_le[0] + 256 * port_le[1]);
    assert(port % 256 == port_le[0] && port / 256 == port_le[1]);
    assert(port_wire(port) =~= port_le);
}

/// A kind that is read back from its byte is the one that was written, and a byte that is read as
/// a kind is the byte that the kind is written as.
pub proof fn law_kind_read_back(kind: Kind, byte: u8)
    ensures
        <Kind as TryFromSpec<u8>>::try_from_spec(kind.code()) == Ok::<Kind, UnknownKind>(kind),
        <Kind as TryFromSpec<u8>>::try_from_spec(byte) matches Ok(read) ==> read.code() == byte,
{
}

/// A node replies to a datagram if and only if it is a [`Hello`](crate::message::Hello) from the
/// same namespace under another nonce than its own last one; the reply goes back to where the
/// datagram came from, repeats its nonce and holds the id and port of the node.
pub proof fn law_replies_to_hello(node: DiscoveryView, datagram: Seq<u8>, from: SocketAddr)
    requires
        node.wf(),
    ensures
        node.response(datagram, from) is Reply <==> exists|nonce: Seq<u8>|
            nonce.len() == 8 && nonce != node.last_nonce && datagram == #[trigger] hello_wire(
                nonce,
                node.namespace,
            ),
        forall|nonce: Seq<u8>|
            nonce.len() == 8 && nonce != node.last_nonce && datagram == #[trigger] hello_wire(
                nonce,
                node.namespace,
            ) ==> node.response(datagram, from) == ResponseView::Reply(
                ReplyView { datagram: node.whats_up(nonce), to: from, attempt: 1 },
            ),
{
    assert forall|nonce: Seq<u8>|
        nonce.len() == 8 && nonce != node.last_nonce && datagram == #[trigger] hello_wire(
            nonce,
            node.namespace,
        ) implies node.response(datagram, from) == ResponseView::Reply(
        ReplyView { datagram: node.whats_up(nonce), to: from, attempt: 1 },
    ) by {
        law_hello_read_back(nonce, node.namespace);
        lemma_header(datagram, Kind::Hello);
    }
    if node.response(datagram, from) is Reply {
        lemma_header(datagram, Kind::Hello);
        law_hello_written_back(datagram);
        assert(datagram == hello_wire(datagram.subrange(4, 12), node.namespace));
    }
}

/// A node takes a datagram for a discovery if and only if it came from an IPv6 address and is a
/// [`WhatsUp`](crate::message::WhatsUp) under the node's last nonce with an id that is a Zenoh id
/// other than its own; the address found is the one that the datagram came from, at the port in it.
pub proof fn law_discovers_by_whats_up(node: DiscoveryView, datagram: Seq<u8>, from: SocketAddr)
    requires
        node.wf(),
    ensures
        node.response(datagram, from) is Found <==> from is V6 && exists|zid: Seq<u8>, port: u16|
            is_zenoh_id(zid) && zid != node.zid && datagram == #[trigger] whats_up_wire(
                node.last_nonce,
                zid,
                port_wire(port),
            ),
        forall|zid: Seq<u8>, port: u16|
            from is V6 && is_zenoh_id(zid) && zid != node.zid && datagram
                == #[trigger] whats_up_wire(node.last_nonce, zid, port_wire(port))
                ==> node.response(datagram, from) == (ResponseView::Found {
                zid,
                addr: from->V6_0.at_port(port),
            }),
{
    assert forall|zid: Seq<u8>, port: u16|
        from is V6 && is_zenoh_id(zid) && zid != node.zid && datagram == #[trigger] whats_up_wire(
            node.last_nonce,
            zid,
            port_wire(port),
        ) implies node.response(datagram, from) == (ResponseView::Found {
        zid,
        addr: from->V6_0.at_port(port),
    }) by {
        law_whats_up_read_back(node.last_nonce, zid, port_wire(port));
        lemma_header(datagram, Kind::WhatsUp);
        law_port_read_back(port);
    }
    if node.response(datagram, from) is Found {
        lemma_header(datagram, Kind::WhatsUp);
        law_whats_up_written_back(datagram);
        let zid = datagram.subrange(12, 28);
        let port_le = datagram.subrange(28, 30);
        law_port_written_back(port_le);
        assert(datagram == whats_up_wire(node.last_nonce, zid, port_wire(port_value(port_le))));
    }
}

/// Two nodes of one namespace find each other: the announcement of the one is answered by the
/// other, and the answer, which comes from the other's IPv6 address, is a discovery of the other's
/// id at the other's port. It takes that their last nonces differ and their ids differ.
pub proof fn law_nodes_find_each_other(
    asking: DiscoveryView,
    answering: DiscoveryView,
    asking_addr: SocketAddr,
    answering_addr: SocketAddrV6,
)
    requires
        asking.wf(),
        answering.wf(),
        asking.namespace == answering.namespace,
        asking.last_nonce != answering.last_nonce,
        asking.zid != answering.zid,
    ensures
        answering.response(asking.hello(), asking_addr) == ResponseView::Reply(
            ReplyView {
                datagram: answering.whats_up(asking.last_nonce),
                to: asking_addr,
                attempt: 1,
            },
        ),
        asking.response(
            answering.whats_up(asking.last_nonce),
            SocketAddr::V6(answering_addr),
        ) == (ResponseView::Found {
            zid: answering.zid,
            addr: answering_addr.at_port(answering.listen_port),
        }),
{
    law_replies_to_hello(answering, asking.hello(), asking_addr);
    law_whats_up_read_back(asking.last_nonce, answering.zid, port_wire(answering.listen_port));
    lemma_header(answering.whats_up(asking.last_nonce), Kind::WhatsUp);
    law_port_read_back(answering.listen_port);
}

/// A node does not answer its own announcement, should it come back.
pub proof fn law_own_hello_is_dropped(node: DiscoveryView, from: SocketAddr)
    requires
        node.wf(),
    ensures
        node.response(node.hello(), from) == ResponseView::Dropped(DropReason::LocalHelloNonce),
{
    law_hello_read_back(node.last_nonce, node.namespace);
    lemma_header(node.hello(), Kind::Hello);
}

/// A node does nothing about an announcement from another namespace.
pub proof fn law_other_namespace_is_dropped(
    asking: DiscoveryView,
    node: DiscoveryView,
    from: SocketAddr,
)
    requires
        asking.wf(),
        node.wf(),
        asking.namespace != node.namespace,
    ensures
        node.response(asking.hello(), from) is Dropped,
{
    law_hello_read_back(asking.last_nonce, asking.namespace);
    lemma_header(asking.hello(), Kind::Hello);
}

/// An answer to an earlier announcement is dropped.
pub proof fn law_stale_whats_up_is_dropped(
    node: DiscoveryView,
    answering: DiscoveryView,
    nonce: Seq<u8>,
    from: SocketAddr,
)
    requires
        node.wf(),
        answering.wf(),
        nonce.len() == 8,
        nonce != node.last_nonce,
    ensures
        node.response(answering.whats_up(nonce), from) == ResponseView::Dropped(
            DropReason::StaleNonce,
        ),
{
    law_whats_up_read_back(nonce, answering.zid, port_wire(answering.listen_port));
    lemma_header(answering.whats_up(nonce), Kind::WhatsUp);
}

/// A node never discovers itself, nor anything that is not a Zenoh id, nor anything at an IPv4
/// address.
pub proof fn law_discovers_others_only(node: DiscoveryView, datagram: Seq<u8>, from: SocketAddr)
    ensures
        node.response(datagram, from) matches ResponseView::Found { zid, addr } ==> {
            &&& zid != node.zid
            &&& is_zenoh_id(zid)
            &&& from matches SocketAddr::V6(v6) && addr == v6.at_port(addr.port)
        },
{
}

/// An answer is never answered, so no two nodes keep each other busy.
pub proof fn law_no_reply_to_a_reply(
    node: DiscoveryView,
    answering: DiscoveryView,
    nonce: Seq<u8>,
    from: SocketAddr,
)
    requires
        answering.wf(),
        nonce.len() == 8,
    ensures
        !(node.response(answering.whats_up(nonce), from) is Reply),
{
    law_whats_up_read_back(nonce, answering.zid, port_wire(answering.listen_port));
    lemma_header(answering.whats_up(nonce), Kind::WhatsUp);
}

/// A datagram of any other length than that of a message is dropped; in particular one that fills
/// the receive buffer, and may have been cut off to fit.
pub proof fn law_other_lengths_are_dropped(node: DiscoveryView, datagram: Seq<u8>, from: SocketAddr)
    requires
        datagram.len() != HELLO_SIZE,
        datagram.len() != WHATS_UP_SIZE,
    ensures
        node.response(datagram, from) is Dropped,
{
}

/// How a reply goes on from the attempt of that number, if the outcomes of the sends from there on
/// are those: the last step, and how many sends it took. Where the outcomes run out, the last step
/// is to try again.
pub open spec fn reply_run(attempt: nat, outcomes: Seq<SendOutcome>) -> (ReplyStep, nat)
    decreases outcomes.len(),
{
    if outcomes.len() == 0 {
        (ReplyStep::Retry, 0)
    } else {
        match reply_step(attempt, outcomes[0]) {
            ReplyStep::Retry => {
                let (step, sends) = reply_run(attempt + 1, outcomes.skip(1));
                (step, sends + 1)
            },
            step => (step, 1),
        }
    }
}

/// A reply is sent until the whole of it gets through, and five times at most: it is delivered if
/// and only if one of the first five sends takes the whole of it, and the first such send is the
/// last.
pub proof fn law_reply_is_sent_five_times_at_most(outcomes: Seq<SendOutcome>)
    requires
        outcomes.len() >= REPLY_ATTEMPTS,
    ensures
        ({
            let (step, sends) = reply_run(1, outcomes);
            let whole = SendOutcome::Sent(WHATS_UP_SIZE);
            &&& 1 <= sends <= REPLY_ATTEMPTS
            &&& forall|i: int| 0 <= i < sends - 1 ==> outcomes[i] != whole
            &&& step is Delivered && outcomes[sends - 1] == whole || step is GiveUp && sends
                == REPLY_ATTEMPTS && outcomes[sends - 1] != whole
        }),
{
    lemma_reply_run(1, outcomes);
}

/// The same from any attempt on.
proof fn lemma_reply_run(attempt: nat, outcomes: Seq<SendOutcome>)
    requires
        1 <= attempt <= REPLY_ATTEMPTS,
        outcomes.len() + attempt > REPLY_ATTEMPTS,
    ensures
        ({
            let (step, sends) = reply_run(attempt, outcomes);
            let whole = SendOutcome::Sent(WHATS_UP_SIZE);
            &&& 1 <= sends <= REPLY_ATTEMPTS + 1 - attempt
            &&& forall|i: int| 0 <= i < sends - 1 ==> outcomes[i] != whole
            &&& step is Delivered && outcomes[sends - 1] == whole || step is GiveUp && sends
                == REPLY_ATTEMPTS + 1 - attempt && outcomes[sends - 1] != whole
        }),
    decreases outcomes.len(),
{
    if reply_step(attempt, outcomes[0]) is Retry {
        let rest = outcomes.skip(1);
        lemma_reply_run(attempt + 1, rest);
        let (step, sends) = reply_run(attempt, outcomes);
        assert forall|i: int| 0 <= i < sends - 1 implies outcomes[i] != SendOutcome::Sent(
            WHATS_UP_SIZE,
        ) by {
            if i > 0 {
                assert(outcomes[i] == rest[i - 1]);
            }
        }
        assert(outcomes[sends - 1] == rest[sends - 2]);
    }
}

} // verus!
