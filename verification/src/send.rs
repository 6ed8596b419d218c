//! What is sent and what came of it: announcements to the group, and replies to a node.

use vstd::prelude::*;
use crate::addr::{SocketAddr, SocketAddrV6};
use crate::message::{HELLO_SIZE, WHATS_UP_SIZE};

verus! {

/// How long a single send may take, in milliseconds. Without a bound, one stalled send would hold
/// up every announcement after it.
pub const SEND_TIMEOUT_MS: u64 = 500;

/// How long to wait after a reply that did not get through, in milliseconds.
pub const REPLY_PAUSE_MS: u64 = 300;

/// How often a reply is sent at most.
pub const REPLY_ATTEMPTS: u32 = 5;

/// What came of an attempt to send a datagram.
#[derive(Debug, Clone, Copy, PartialEq, Eq, Structural)]
pub enum SendOutcome {
    /// That many bytes were sent.
    Sent(usize),
    /// The system has no way to the address.
    HostUnreachable,
    /// Any other error.
    Failed,
    /// Nothing came of it within [`SEND_TIMEOUT_MS`].
    TimedOut,
}

/// An announcement, as mathematics sees it.
pub ghost struct AnnouncementView {
    pub datagram: Seq<u8>,
    pub targets: Seq<SocketAddrV6>,
    /// How many of the targets are left. They are served from the last to the first.
    pub pending: nat,
}

impl AnnouncementView {
    pub open spec fn wf(self) -> bool {
        &&& self.datagram.len() == HELLO_SIZE
        &&& self.pending <= self.targets.len()
    }

    /// The target to send to next.
    pub open spec fn target(self) -> SocketAddrV6 {
        self.targets[self.pending - 1]
    }

    /// After one more target has been served.
    pub open spec fn advanced(self) -> AnnouncementView {
        AnnouncementView { pending: (self.pending - 1) as nat, ..self }
    }
}

/// A datagram on its way to every interface, one after the other.
#[derive(Debug)]
pub struct Announcement {
    datagram: [u8; HELLO_SIZE],
    targets: Vec<SocketAddrV6>,
    pending: usize,
}

impl View for Announcement {
    type V = AnnouncementView;

    closed spec fn view(&self) -> AnnouncementView {
        AnnouncementView {
            datagram: self.datagram@,
            targets: self.targets@,
            pending: self.pending as nat,
        }
    }
}

impl Announcement {
    /// An announcement of which nothing has been sent yet.
    pub(crate) fn new(
        datagram: [u8; HELLO_SIZE],
        targets: Vec<SocketAddrV6>,
    ) -> (announcement: Announcement)
        ensures
            announcement@.wf(),
            announcement@ == (AnnouncementView {
                datagram: datagram@,
                targets: targets@,
                pending: targets@.len(),
            }),
    {
        let pending: usize = targets.len();
        Announcement { datagram, targets, pending }
    }

    /// The datagram to send.
    pub fn datagram(&self) -> (datagram: [u8; HELLO_SIZE])
        ensures
            datagram@ == self@.datagram,
    {
        self.datagram
    }

    /// The targets, those that have been served included.
    pub fn targets(&self) -> (targets: &Vec<SocketAddrV6>)
        ensures
            targets@ == self@.targets,
    {
        &self.targets
    }

    /// How many targets are left.
    pub fn pending(&self) -> (pending: usize)
        ensures
            pending == self@.pending,
    {
        self.pending
    }

    /// The target to send to next, if one is left.
    pub fn target(&self) -> (target: Option<SocketAddrV6>)
        requires
            self@.wf(),
        ensures
            target is None <==> self@.pending == 0,
            target matches Some(addr) ==> addr == self@.target(),
    {
        if self.pending == 0 {
            None
        } else {
            Some(self.targets[self.pending - 1])
        }
    }

    /// Takes note that the next target has been served, and returns it.
    pub(crate) fn advance(&mut self) -> (served: SocketAddrV6)
        requires
            old(self)@.wf(),
            old(self)@.pending > 0,
        ensures
            final(self)@.wf(),
            final(self)@ == old(self)@.advanced(),
            served == old(self)@.target(),
    {
        self.pending = self.pending - 1;
        self.targets[self.pending]
    }
}

/// What follows an attempt to send a reply.
#[derive(Debug, Clone, Copy, PartialEq, Eq, Structural)]
pub enum ReplyStep {
    /// The whole reply was sent: nothing more is to be done.
    Delivered,
    /// The reply is to be sent again, after a pause of [`REPLY_PAUSE_MS`].
    Retry,
    /// No attempt is left: after a pause of [`REPLY_PAUSE_MS`], nothing more is to be done.
    GiveUp,
}

/// What follows the attempt of that number, counted from one.
pub open spec fn reply_step(attempt: nat, outcome: SendOutcome) -> ReplyStep {
    if outcome == SendOutcome::Sent(WHATS_UP_SIZE) {
        ReplyStep::Delivered
    } else if attempt < REPLY_ATTEMPTS {
        ReplyStep::Retry
    } else {
        ReplyStep::GiveUp
    }
}

/// A reply, as mathematics sees it.
pub ghost struct ReplyView {
    pub datagram: Seq<u8>,
    pub to: SocketAddr,
    /// The number of the next attempt to send it, counted from one.
    pub attempt: nat,
}

impl ReplyView {
    pub open spec fn wf(self) -> bool {
        &&& self.datagram.len() == WHATS_UP_SIZE
        &&& 1 <= self.attempt <= REPLY_ATTEMPTS
    }
}

/// A datagram on its way to the node that asked for it.
#[derive(Debug)]
pub struct Reply {
    datagram: [u8; WHATS_UP_SIZE],
    to: SocketAddr,
    attempt: u32,
}

impl View for Reply {
    type V = ReplyView;

    closed spec fn view(&self) -> ReplyView {
        ReplyView { datagram: self.datagram@, to: self.to, attempt: self.attempt as nat }
    }
}

impl Reply {
    /// A reply that has not been sent yet.
    pub(crate) fn new(datagram: [u8; WHATS_UP_SIZE], to: SocketAddr) -> (reply: Reply)
        ensures
            reply@.wf(),
            reply@ == (ReplyView { datagram: datagram@, to, attempt: 1 }),
    {
        Reply { datagram, to, attempt: 1 }
    }

    /// The datagram to send.
    pub fn datagram(&self) -> (datagram: [u8; WHATS_UP_SIZE])
        ensures
            datagram@ == self@.datagram,
    {
        self.datagram
    }

    /// The address to send it to.
    pub fn to(&self) -> (to: SocketAddr)
        ensures
            to == self@.to,
    {
        self.to
    }

    /// The number of the next attempt, counted from one.
    pub fn attempt(&self) -> (attempt: u32)
        ensures
            attempt == self@.attempt,
    {
        self.attempt
    }

    /// Takes note of an attempt to send the reply, and says what follows.
    pub fn sent(&mut self, outcome: SendOutcome) -> (step: ReplyStep)
        requires
            old(self)@.wf(),
        ensures
            final(self)@.wf(),
            step == reply_step(old(self)@.attempt, outcome),
            final(self)@ == (ReplyView {
                attempt: if step is Retry {
                    old(self)@.attempt + 1
                } else {
                    old(self)@.attempt
                },
                ..old(self)@
            }),
    {
        match outcome {
            SendOutcome::Sent(bytes) if bytes == WHATS_UP_SIZE => ReplyStep::Delivered,
            _ => {
                if self.attempt < REPLY_ATTEMPTS {
                    self.attempt = self.attempt + 1;
                    ReplyStep::Retry
                } else {
                    ReplyStep::GiveUp
                }
            },
        }
    }
}

} // verus!
