//! The datagrams of the discovery protocol, and how they are laid out in bytes.
//!
//! Every datagram starts with the same four bytes: the magic `EXO` and the kind of the message.
//! The fields of the message follow, one after the other and with nothing between them.

use vstd::prelude::*;
use vstd::slice::slice_subrange;
use crate::outside::{bytes_of, from_bytes};

verus! {

/// The first three bytes of every datagram: `EXO`.
pub const MAGIC: [u8; 3] = [0x45, 0x58, 0x4f];

/// The length of the header, in bytes.
pub const HEADER_SIZE: usize = 4;

/// The length of a datagram that holds a [`Hello`], in bytes.
pub const HELLO_SIZE: usize = HEADER_SIZE + 16;

/// The length of a datagram that holds a [`WhatsUp`], in bytes.
pub const WHATS_UP_SIZE: usize = HEADER_SIZE + 26;

/// What a datagram holds: its packet type and, in the same byte, its version.
#[derive(Debug, Clone, Copy, PartialEq, Eq, Structural)]
pub enum Kind {
    Hello,
    WhatsUp,
}

/// The error for a byte that stands for no [`Kind`].
#[derive(Debug, Clone, Copy, PartialEq, Eq, Structural)]
pub struct UnknownKind;

impl Kind {
    /// The byte that stands for the kind in a header.
    pub open spec fn code(self) -> u8 {
        match self {
            Kind::Hello => 0,
            Kind::WhatsUp => 1,
        }
    }

    /// The byte that stands for the kind in a header.
    pub fn to_byte(self) -> (byte: u8)
        ensures
            byte == self.code(),
    {
        match self {
            Kind::Hello => 0,
            Kind::WhatsUp => 1,
        }
    }
}

impl TryFrom<u8> for Kind {
    type Error = UnknownKind;

    fn try_from(value: u8) -> (kind: Result<Self, Self::Error>)
        ensures
            kind matches Ok(k) ==> k.code() == value,
            kind is Err <==> (value != Kind::Hello.code() && value != Kind::WhatsUp.code()),
    {
        match value {
            0 => Ok(Kind::Hello),
            1 => Ok(Kind::WhatsUp),
            _ => Err(UnknownKind),
        }
    }
}

impl vstd::std_specs::convert::TryFromSpecImpl<u8> for Kind {
    open spec fn obeys_try_from_spec() -> bool {
        true
    }

    open spec fn try_from_spec(v: u8) -> Result<Self, Self::Error> {
        if v == Kind::Hello.code() {
            Ok(Kind::Hello)
        } else if v == Kind::WhatsUp.code() {
            Ok(Kind::WhatsUp)
        } else {
            Err(UnknownKind)
        }
    }
}

/// A message of the protocol: the fields that follow the header, under the kind that the header
/// announces them by.
pub trait Message {
    const KIND: Kind;
}

/// The first bytes of a datagram.
#[derive(Debug, Clone, Copy)]
pub struct Header {
    magic: [u8; 3],
    kind: u8,
}

/// The header as it stands in a datagram.
impl View for Header {
    type V = Seq<u8>;

    closed spec fn view(&self) -> Seq<u8> {
        self.magic@.push(self.kind)
    }
}

/// The bytes of the header of a message of that kind.
pub open spec fn header_wire(kind: Kind) -> Seq<u8> {
    MAGIC@.push(kind.code())
}

impl Header {
    /// The header of a message of that kind.
    pub fn new(kind: Kind) -> (header: Header)
        ensures
            header@ == header_wire(kind),
    {
        Header { magic: MAGIC, kind: kind.to_byte() }
    }

    /// The header at the start of a datagram.
    pub fn read(datagram: &[u8]) -> (header: Header)
        requires
            HEADER_SIZE <= datagram@.len(),
        ensures
            header@ == datagram@.take(HEADER_SIZE as int),
    {
        let bytes: &[u8; 4] = from_bytes(slice_subrange(datagram, 0, HEADER_SIZE));
        Header { magic: [bytes[0], bytes[1], bytes[2]], kind: bytes[3] }
    }

    /// The bytes of the header, in the order in which they stand in a datagram.
    pub fn to_bytes(&self) -> (bytes: [u8; HEADER_SIZE])
        ensures
            bytes@ == self@,
    {
        [self.magic[0], self.magic[1], self.magic[2], self.kind]
    }

    /// Whether the header starts with [`MAGIC`].
    pub fn has_magic(&self) -> (matching: bool)
        ensures
            matching == (self@.take(3) == MAGIC@),
    {
        assert(self@.take(3) =~= self.magic@);
        same_bytes(&self.magic, &MAGIC)
    }

    /// The byte that says which kind of message follows.
    pub fn kind(&self) -> (kind: u8)
        ensures
            kind == self@[3],
    {
        self.kind
    }
}

/// Whether two arrays hold the same bytes.
pub(crate) fn same_bytes<const N: usize>(a: &[u8; N], b: &[u8; N]) -> (same: bool)
    ensures
        same == (a@ == b@),
{
    let mut i: usize = 0;
    while i < N
        invariant
            i <= N,
            forall|j: int| 0 <= j < i ==> a@[j] == b@[j],
        decreases N - i,
    {
        if a[i] != b[i] {
            return false;
        }
        i += 1;
    }
    assert(a@ =~= b@);
    true
}

/// Copies bytes into an array, from a position on.
fn put<const N: usize>(buf: &mut [u8; N], at: usize, bytes: &[u8])
    requires
        at + bytes@.len() <= N,
    ensures
        final(buf)@ == old(buf)@.take(at as int) + bytes@ + old(buf)@.skip(at + bytes@.len()),
{
    let mut i: usize = 0;
    while i < bytes.len()
        invariant
            i <= bytes@.len(),
            at + bytes@.len() <= N,
            buf@ == old(buf)@.take(at as int) + bytes@.take(i as int) + old(buf)@.skip(at + i),
        decreases bytes@.len() - i,
    {
        buf[at + i] = bytes[i];
        i += 1;
    }
}

/// The question that a node puts to the group: who else is in this namespace?
#[derive(Debug, Clone, Copy)]
pub struct Hello {
    /// Chosen anew for each announcement; an answer repeats it.
    pub nonce: [u8; 8],
    pub namespace: [u8; 8],
}

impl Message for Hello {
    const KIND: Kind = Kind::Hello;
}

/// The bytes of a [`Hello`] datagram, header included.
pub open spec fn hello_wire(nonce: Seq<u8>, namespace: Seq<u8>) -> Seq<u8> {
    header_wire(Kind::Hello) + nonce + namespace
}

impl Hello {
    /// The length of the datagram.
    pub fn buf_size() -> (size: usize)
        ensures
            size == HELLO_SIZE,
    {
        HELLO_SIZE
    }

    /// The datagram that holds the message.
    pub fn to_datagram(self) -> (datagram: [u8; HELLO_SIZE])
        ensures
            datagram@ == hello_wire(self.nonce@, self.namespace@),
    {
        let mut buf: [u8; HELLO_SIZE] = [0; 20];
        put(&mut buf, 0, bytes_of(&Header::new(Self::KIND).to_bytes()));
        put(&mut buf, HEADER_SIZE, bytes_of(&self.nonce));
        put(&mut buf, HEADER_SIZE + 8, bytes_of(&self.namespace));
        buf
    }

    /// The message in a datagram of that length, whatever its header says.
    pub fn read(datagram: &[u8]) -> (hello: Hello)
        requires
            datagram@.len() == HELLO_SIZE,
        ensures
            hello.nonce@ == datagram@.subrange(4, 12),
            hello.namespace@ == datagram@.subrange(12, 20),
    {
        Hello {
            nonce: *from_bytes(slice_subrange(datagram, 4, 12)),
            namespace: *from_bytes(slice_subrange(datagram, 12, 20)),
        }
    }
}

/// The answer to a [`Hello`].
#[derive(Debug, Clone, Copy)]
pub struct WhatsUp {
    /// The nonce of the [`Hello`] that is answered.
    pub nonce: [u8; 8],
    /// The id of the node that answers.
    pub zid: [u8; 16],
    /// The port of its service, in little-endian byte order.
    pub port_le: [u8; 2],
}

impl Message for WhatsUp {
    const KIND: Kind = Kind::WhatsUp;
}

/// The bytes of a [`WhatsUp`] datagram, header included.
pub open spec fn whats_up_wire(nonce: Seq<u8>, zid: Seq<u8>, port_le: Seq<u8>) -> Seq<u8> {
    header_wire(Kind::WhatsUp) + nonce + zid + port_le
}

impl WhatsUp {
    /// The length of the datagram.
    pub fn buf_size() -> (size: usize)
        ensures
            size == WHATS_UP_SIZE,
    {
        WHATS_UP_SIZE
    }

    /// The datagram that holds the message.
    pub fn to_datagram(self) -> (datagram: [u8; WHATS_UP_SIZE])
        ensures
            datagram@ == whats_up_wire(self.nonce@, self.zid@, self.port_le@),
    {
        let mut buf: [u8; WHATS_UP_SIZE] = [0; 30];
        put(&mut buf, 0, bytes_of(&Header::new(Self::KIND).to_bytes()));
        put(&mut buf, HEADER_SIZE, bytes_of(&self.nonce));
        put(&mut buf, HEADER_SIZE + 8, bytes_of(&self.zid));
        put(&mut buf, HEADER_SIZE + 24, bytes_of(&self.port_le));
        buf
    }

    /// The message in a datagram of that length, whatever its header says.
    pub fn read(datagram: &[u8]) -> (whats_up: WhatsUp)
        requires
            datagram@.len() == WHATS_UP_SIZE,
        ensures
            whats_up.nonce@ == datagram@.subrange(4, 12),
            whats_up.zid@ == datagram@.subrange(12, 28),
            whats_up.port_le@ == datagram@.subrange(28, 30),
    {
        WhatsUp {
            nonce: *from_bytes(slice_subrange(datagram, 4, 12)),
            zid: *from_bytes(slice_subrange(datagram, 12, 28)),
            port_le: *from_bytes(slice_subrange(datagram, 28, 30)),
        }
    }
}

/// The two bytes of a port, the low one first.
pub open spec fn port_wire(port: u16) -> Seq<u8> {
    seq![(port % 256) as u8, (port / 256) as u8]
}

/// The port that two bytes stand for, the low one first.
pub open spec fn port_value(port_le: Seq<u8>) -> u16 {
    (port_le[0] + 256 * port_le[1]) as u16
}

/// The two bytes of a port, the low one first.
pub fn port_to_le_bytes(port: u16) -> (port_le: [u8; 2])
    ensures
        port_le@ == port_wire(port),
{
    [(port % 256) as u8, (port / 256) as u8]
}

/// The port that two bytes stand for, the low one first.
pub fn port_from_le_bytes(port_le: [u8; 2]) -> (port: u16)
    ensures
        port == port_value(port_le@),
{
    port_le[0] as u16 + 256 * port_le[1] as u16
}

} // verus!
