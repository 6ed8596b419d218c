//! The discovery state machine: what a node does on each event.

use vstd::prelude::*;
use vstd::slice::slice_subrange;
use crate::addr::{SocketAddr, SocketAddrV6};
use crate::interfaces::{Interface, Interfaces, InterfacesView, Join};
use crate::message::{
    hello_wire, port_from_le_bytes, port_to_le_bytes, port_value, port_wire, same_bytes,
    whats_up_wire, Header, Hello, Kind, WhatsUp, HEADER_SIZE, HELLO_SIZE, MAGIC, WHATS_UP_SIZE,
};
use crate::outside::{drawn, random_nonce};
use crate::send::{Announcement, AnnouncementView, Reply, ReplyView, SendOutcome};
use crate::zid::{is_zenoh_id, ZenohId};

verus! {

/// The time between two announcements, in milliseconds.
pub const TICK_MS: u64 = 1_000;

/// The time between two resyncs of the interfaces, in milliseconds.
pub const RESYNC_MS: u64 = 10_000;

/// The length of the buffer that datagrams are received into: longer than any message, so that one
/// that is cut off to fit is not taken for a message.
pub const RECEIVE_BUF_SIZE: usize = HELLO_SIZE + WHATS_UP_SIZE + 1;

/// A node that has been found.
#[derive(Debug, Clone, Copy)]
pub struct Discovered {
    pub zid: ZenohId,
    /// The address of its service.
    pub addr: SocketAddrV6,
}

/// Why a datagram is not acted on.
#[derive(Debug, Clone, Copy, PartialEq, Eq, Structural)]
pub enum DropReason {
    /// It is shorter than a header.
    EarlyEof,
    WrongMagic,
    /// Its kind, the byte given here, stands for no message.
    UnknownKind(u8),
    HelloWrongSize,
    /// The node that asks is this one.
    LocalHelloNonce,
    DifferentNamespace,
    WhatsUpWrongSize,
    /// It answers something else than the last announcement.
    StaleNonce,
    /// It came from an IPv4 address.
    V4Address,
    /// It holds no Zenoh id.
    InvalidZenohId,
    /// The node that answers is this one.
    SelfZenohId,
}

/// What is to be done about a datagram.
#[derive(Debug)]
pub enum Response {
    Dropped(DropReason),
    Reply(Reply),
    Found(Discovered),
}

/// A response, as mathematics sees it.
pub ghost enum ResponseView {
    Dropped(DropReason),
    Reply(ReplyView),
    Found { zid: Seq<u8>, addr: SocketAddrV6 },
}

impl View for Response {
    type V = ResponseView;

    open spec fn view(&self) -> ResponseView {
        match *self {
            Response::Dropped(reason) => ResponseView::Dropped(reason),
            Response::Reply(reply) => ResponseView::Reply(reply@),
            Response::Found(found) => ResponseView::Found { zid: found.zid@, addr: found.addr },
        }
    }
}

/// Something that happens to a node.
#[derive(Debug, Clone, Copy, PartialEq, Eq, Structural)]
pub enum Event {
    /// It is time to announce.
    Tick,
    /// It is time to resync the interfaces.
    Resync,
    /// A datagram of that length has come from that address.
    Received { bytes_read: usize, addr: SocketAddr },
    /// A datagram could not be received.
    ReceiveFailed,
}

/// What a node does on an event.
#[derive(Debug)]
pub enum Step {
    /// Sends out the announcement.
    Announce(Announcement),
    /// Nothing: that many addresses have been put back.
    Resynced(usize),
    /// Acts on the datagram.
    Respond(Response),
    /// Nothing.
    Skip,
}

/// A node, as mathematics sees it.
pub ghost struct DiscoveryView {
    pub interfaces: InterfacesView,
    pub namespace: Seq<u8>,
    pub last_nonce: Seq<u8>,
    pub listen_port: u16,
    pub zid: Seq<u8>,
}

impl DiscoveryView {
    pub open spec fn wf(self) -> bool {
        &&& self.interfaces.wf()
        &&& self.namespace.len() == 8
        &&& self.last_nonce.len() == 8
        &&& is_zenoh_id(self.zid)
    }

    /// The datagram that the node announces itself with.
    pub open spec fn hello(self) -> Seq<u8> {
        hello_wire(self.last_nonce, self.namespace)
    }

    /// The datagram that the node answers an announcement of that nonce with.
    pub open spec fn whats_up(self, nonce: Seq<u8>) -> Seq<u8> {
        whats_up_wire(nonce, self.zid, port_wire(self.listen_port))
    }

    /// The node with another last nonce.
    pub open spec fn with_nonce(self, nonce: Seq<u8>) -> DiscoveryView {
        DiscoveryView { last_nonce: nonce, ..self }
    }

    /// The node with other interfaces.
    pub open spec fn with_interfaces(self, interfaces: InterfacesView) -> DiscoveryView {
        DiscoveryView { interfaces, ..self }
    }

    /// The announcement of the last nonce, before anything of it has been sent.
    pub open spec fn announcement(self) -> AnnouncementView {
        AnnouncementView {
            datagram: self.hello(),
            targets: self.interfaces.ifaces,
            pending: self.interfaces.ifaces.len(),
        }
    }

    /// What the node does about a datagram.
    pub open spec fn response(self, datagram: Seq<u8>, from: SocketAddr) -> ResponseView {
        if datagram.len() < HEADER_SIZE {
            ResponseView::Dropped(DropReason::EarlyEof)
        } else if datagram.take(3) != MAGIC@ {
            ResponseView::Dropped(DropReason::WrongMagic)
        } else if datagram[3] == Kind::Hello.code() {
            self.response_to_hello(datagram, from)
        } else if datagram[3] == Kind::WhatsUp.code() {
            self.response_to_whats_up(datagram, from)
        } else {
            ResponseView::Dropped(DropReason::UnknownKind(datagram[3]))
        }
    }

    /// What the node does about a datagram whose header announces a [`Hello`].
    pub open spec fn response_to_hello(self, datagram: Seq<u8>, from: SocketAddr) -> ResponseView {
        let nonce = datagram.subrange(4, 12);
        let namespace = datagram.subrange(12, 20);
        if datagram.len() != HELLO_SIZE {
            ResponseView::Dropped(DropReason::HelloWrongSize)
        } else if nonce == self.last_nonce {
            ResponseView::Dropped(DropReason::LocalHelloNonce)
        } else if namespace != self.namespace {
            ResponseView::Dropped(DropReason::DifferentNamespace)
        } else {
            ResponseView::Reply(ReplyView { datagram: self.whats_up(nonce), to: from, attempt: 1 })
        }
    }

    /// What the node does about a datagram whose header announces a [`WhatsUp`].
    pub open spec fn response_to_whats_up(
        self,
        datagram: Seq<u8>,
        from: SocketAddr,
    ) -> ResponseView {
        let nonce = datagram.subrange(4, 12);
        let zid = datagram.subrange(12, 28);
        let port_le = datagram.subrange(28, 30);
        if datagram.len() != WHATS_UP_SIZE {
            ResponseView::Dropped(DropReason::WhatsUpWrongSize)
        } else if nonce != self.last_nonce {
            ResponseView::Dropped(DropReason::StaleNonce)
        } else if !(from is V6) {
            ResponseView::Dropped(DropReason::V4Address)
        } else if !is_zenoh_id(zid) {
            ResponseView::Dropped(DropReason::InvalidZenohId)
        } else if zid == self.zid {
            ResponseView::Dropped(DropReason::SelfZenohId)
        } else {
            ResponseView::Found { zid, addr: from->V6_0.at_port(port_value(port_le)) }
        }
    }
}

/// A node of the discovery protocol.
#[derive(Debug)]
pub struct Discovery {
    interfaces: Interfaces,
    namespace: [u8; 8],
    /// The nonce of the last announcement.
    last_nonce: [u8; 8],
    /// The port of the service that discovery is done for, as told to the other nodes.
    listen_port: u16,
    zid: ZenohId,
}

impl View for Discovery {
    type V = DiscoveryView;

    closed spec fn view(&self) -> DiscoveryView {
        DiscoveryView {
            interfaces: self.interfaces@,
            namespace: self.namespace@,
            last_nonce: self.last_nonce@,
            listen_port: self.listen_port,
            zid: self.zid@,
        }
    }
}

impl Discovery {
    /// A node that has not announced itself yet, under a nonce of chance.
    pub fn new(
        zid: ZenohId,
        namespace: [u8; 8],
        listen_port: u16,
        discovery_port: u16,
    ) -> (node: Discovery)
        ensures
            node@.wf(),
            drawn(node@.last_nonce),
            node@ == (DiscoveryView {
                interfaces: InterfacesView {
                    ifaces: Seq::empty(),
                    known: Set::empty(),
                    port: discovery_port,
                },
                namespace: namespace@,
                last_nonce: node@.last_nonce,
                listen_port,
                zid: zid@,
            }),
    {
        Discovery::with_nonce(zid, namespace, listen_port, discovery_port, random_nonce())
    }

    /// A node that has not announced itself yet, under that nonce.
    pub fn with_nonce(
        zid: ZenohId,
        namespace: [u8; 8],
        listen_port: u16,
        discovery_port: u16,
        nonce: [u8; 8],
    ) -> (node: Discovery)
        ensures
            node@.wf(),
            node@ == (DiscoveryView {
                interfaces: InterfacesView {
                    ifaces: Seq::empty(),
                    known: Set::empty(),
                    port: discovery_port,
                },
                namespace: namespace@,
                last_nonce: nonce@,
                listen_port,
                zid: zid@,
            }),
    {
        proof {
            use_type_invariant(&zid);
        }
        Discovery {
            interfaces: Interfaces::new(discovery_port),
            namespace,
            last_nonce: nonce,
            listen_port,
            zid,
        }
    }

    /// The addresses that the next announcement goes to.
    pub fn ifaces(&self) -> (ifaces: Vec<SocketAddrV6>)
        ensures
            ifaces@ == self@.interfaces.ifaces,
    {
        self.interfaces.ifaces()
    }

    /// Whether an interface is known, be it announced on or not.
    pub fn knows(&self, index: u32) -> (known: bool)
        ensures
            known == self@.interfaces.known.contains(index),
    {
        self.interfaces.knows(index)
    }

    /// Takes note of a change of the interfaces: the listing of those that are present, the
    /// attempts to join the group on some of them, and the indices of those that have gone.
    pub fn update_interfaces(&mut self, present: &[Interface], joins: &[Join], removed: &[u32])
        requires
            old(self)@.wf(),
        ensures
            final(self)@.wf(),
            final(self)@ == old(self)@.with_interfaces(
                old(self)@.interfaces.updated(present@, joins@, removed@),
            ),
    {
        self.interfaces.update(present, joins, removed);
    }

    /// Announces on every known interface from here on, whatever sends have failed on it, and
    /// returns on how many it was not announced. Where the group is joined stays as it is.
    pub fn resync_ifaces(&mut self) -> (restored: usize)
        requires
            old(self)@.wf(),
        ensures
            final(self)@.wf(),
            old(self)@.interfaces.resynced(final(self)@.interfaces),
            final(self)@ == old(self)@.with_interfaces(final(self)@.interfaces),
            restored == final(self)@.interfaces.ifaces.len() - old(self)@.interfaces.ifaces.len(),
    {
        self.interfaces.resync()
    }

    /// Starts an announcement under a new nonce of chance.
    pub fn announce(&mut self) -> (announcement: Announcement)
        requires
            old(self)@.wf(),
        ensures
            final(self)@.wf(),
            final(self)@ == old(self)@.with_nonce(final(self)@.last_nonce),
            drawn(final(self)@.last_nonce),
            announcement@.wf(),
            announcement@ == final(self)@.announcement(),
            announcement@.targets == old(self)@.interfaces.ifaces,
            announcement@.pending == old(self)@.interfaces.ifaces.len(),
    {
        self.announce_with(random_nonce())
    }

    /// Starts an announcement under that nonce.
    pub fn announce_with(&mut self, nonce: [u8; 8]) -> (announcement: Announcement)
        requires
            old(self)@.wf(),
        ensures
            final(self)@.wf(),
            final(self)@ == old(self)@.with_nonce(nonce@),
            announcement@.wf(),
            announcement@ == final(self)@.announcement(),
            announcement@.targets == old(self)@.interfaces.ifaces,
            announcement@.pending == old(self)@.interfaces.ifaces.len(),
    {
        self.last_nonce = nonce;
        let datagram = Hello { nonce, namespace: self.namespace }.to_datagram();
        Announcement::new(datagram, self.interfaces.ifaces())
    }

    /// Takes note of an attempt to send an announcement to its next target. Where the system has no
    /// way to it, its address is taken out, if it is still there: the interfaces may have changed
    /// since the announcement started. Returns whether an address was taken out.
    pub fn announce_sent(
        &mut self,
        announcement: &mut Announcement,
        outcome: SendOutcome,
    ) -> (pruned: bool)
        requires
            old(self)@.wf(),
            old(announcement)@.wf(),
            old(announcement)@.pending > 0,
        ensures
            final(self)@.wf(),
            final(announcement)@.wf(),
            final(announcement)@ == old(announcement)@.advanced(),
            final(self)@ == old(self)@.with_interfaces(
                old(self)@.interfaces.after_send(old(announcement)@.target(), outcome),
            ),
            pruned == (outcome is HostUnreachable && old(self)@.interfaces.ifaces.contains(
                old(announcement)@.target(),
            )),
    {
        let target = announcement.advance();
        match outcome {
            SendOutcome::HostUnreachable => self.interfaces.take_out(target),
            SendOutcome::Sent(_) | SendOutcome::Failed | SendOutcome::TimedOut => false,
        }
    }

    /// Says what is to be done about a datagram, which stands at the start of the buffer.
    pub fn respond(&self, bytes_read: usize, addr: SocketAddr, buf: &[u8]) -> (response: Response)
        requires
            self@.wf(),
            bytes_read <= buf@.len(),
        ensures
            response@ == self@.response(buf@.take(bytes_read as int), addr),
            response matches Response::Reply(reply) ==> reply@.wf(),
    {
        let datagram = slice_subrange(buf, 0, bytes_read);
        if bytes_read < HEADER_SIZE {
            return Response::Dropped(DropReason::EarlyEof);
        }
        let header = Header::read(datagram);
        assert(header@.take(3) =~= datagram@.take(3));
        if !header.has_magic() {
            return Response::Dropped(DropReason::WrongMagic);
        }
        match Kind::try_from(header.kind()) {
            Err(_) => Response::Dropped(DropReason::UnknownKind(header.kind())),
            Ok(Kind::Hello) => self.respond_to_hello(datagram, addr),
            Ok(Kind::WhatsUp) => self.respond_to_whats_up(datagram, addr),
        }
    }

    /// Says what is to be done about a datagram whose header announces a [`Hello`].
    fn respond_to_hello(&self, datagram: &[u8], addr: SocketAddr) -> (response: Response)
        requires
            self@.wf(),
        ensures
            response@ == self@.response_to_hello(datagram@, addr),
            response matches Response::Reply(reply) ==> reply@.wf(),
    {
        if datagram.len() != Hello::buf_size() {
            return Response::Dropped(DropReason::HelloWrongSize);
        }
        let hello = Hello::read(datagram);
        if same_bytes(&hello.nonce, &self.last_nonce) {
            return Response::Dropped(DropReason::LocalHelloNonce);
        }
        if !same_bytes(&hello.namespace, &self.namespace) {
            return Response::Dropped(DropReason::DifferentNamespace);
        }
        let whats_up = WhatsUp {
            nonce: hello.nonce,
            zid: self.zid.to_le_bytes(),
            port_le: port_to_le_bytes(self.listen_port),
        };
        Response::Reply(Reply::new(whats_up.to_datagram(), addr))
    }

    /// Says what is to be done about a datagram whose header announces a [`WhatsUp`].
    fn respond_to_whats_up(&self, datagram: &[u8], addr: SocketAddr) -> (response: Response)
        requires
            self@.wf(),
        ensures
            response@ == self@.response_to_whats_up(datagram@, addr),
            !(response is Reply),
    {
        if datagram.len() != WhatsUp::buf_size() {
            return Response::Dropped(DropReason::WhatsUpWrongSize);
        }
        let whats_up = WhatsUp::read(datagram);
        if !same_bytes(&whats_up.nonce, &self.last_nonce) {
            return Response::Dropped(DropReason::StaleNonce);
        }
        let v6 = match addr {
            SocketAddr::V6(v6) => v6,
            SocketAddr::V4(_) => {
                return Response::Dropped(DropReason::V4Address);
            },
        };
        let zid = match ZenohId::from_le_bytes(whats_up.zid) {
            Some(zid) => zid,
            None => {
                return Response::Dropped(DropReason::InvalidZenohId);
            },
        };
        if zid == self.zid {
            return Response::Dropped(DropReason::SelfZenohId);
        }
        // The datagram comes from the port of discovery; the port of the service is in it.
        let addr = v6.with_port(port_from_le_bytes(whats_up.port_le));
        Response::Found(Discovered { zid, addr })
    }

    /// Says what is to be done on an event. A datagram stands at the start of the buffer.
    pub fn next(&mut self, event: Event, buf: &[u8]) -> (step: Step)
        requires
            old(self)@.wf(),
            event matches Event::Received { bytes_read, addr } ==> bytes_read <= buf@.len(),
        ensures
            final(self)@.wf(),
            match event {
                Event::Tick => {
                    &&& step matches Step::Announce(announcement)
                    &&& announcement@.wf()
                    &&& announcement@ == final(self)@.announcement()
                    &&& announcement@.targets == old(self)@.interfaces.ifaces
                    &&& announcement@.pending == old(self)@.interfaces.ifaces.len()
                    &&& drawn(final(self)@.last_nonce)
                    &&& final(self)@ == old(self)@.with_nonce(final(self)@.last_nonce)
                },
                Event::Resync => {
                    &&& step matches Step::Resynced(restored)
                    &&& restored == final(self)@.interfaces.ifaces.len()
                        - old(self)@.interfaces.ifaces.len()
                    &&& old(self)@.interfaces.resynced(final(self)@.interfaces)
                    &&& final(self)@ == old(self)@.with_interfaces(final(self)@.interfaces)
                },
                Event::Received { bytes_read, addr } => {
                    &&& step matches Step::Respond(response)
                    &&& response@ == old(self)@.response(buf@.take(bytes_read as int), addr)
                    &&& response matches Response::Reply(reply) ==> reply@.wf()
                    &&& final(self)@ == old(self)@
                },
                Event::ReceiveFailed => step is Skip && final(self)@ == old(self)@,
            },
    {
        match event {
            Event::Tick => Step::Announce(self.announce()),
            Event::Resync => Step::Resynced(self.resync_ifaces()),
            Event::Received { bytes_read, addr } => Step::Respond(
                self.respond(bytes_read, addr, buf),
            ),
            Event::ReceiveFailed => Step::Skip,
        }
    }
}

} // verus!
