//! The interfaces that a node announces itself on.
//!
//! Two records are kept. `known` holds the index of every interface that is present. `ifaces`
//! holds the addresses that the next announcement goes to. An interface gets its address there as
//! soon as the group has been joined on it; a send that finds no way takes the address out; a
//! resync puts in whatever known interface has none. Whether the group is joined matters to what is
//! received, so a resync does not ask for it.

use std::collections::HashSet;
use vstd::prelude::*;
use crate::addr::{SocketAddrV6, LOOPBACK, UNSPECIFIED};
use crate::send::SendOutcome;

verus! {

broadcast use vstd::std_specs::hash::group_hash_axioms;

/// The multicast group of the protocol, `ff12::e0a1:de89`.
pub const GROUP: u128 = 0xff12_0000_0000_0000_0000_0000_e0a1_de89;

/// An interface as the watch on the interfaces reports it.
#[derive(Debug)]
pub struct Interface {
    pub index: u32,
    /// The IPv6 addresses of the interface, as numbers.
    pub ipv6: Vec<u128>,
}

/// What came of an attempt to join the group on an interface.
#[derive(Debug, Clone, Copy, PartialEq, Eq, Structural)]
pub enum JoinOutcome {
    Joined,
    /// The group is joined on that interface already, by an earlier attempt.
    AlreadyJoined,
    Failed,
}

/// An attempt to join the group on an interface.
#[derive(Debug, Clone, Copy, PartialEq, Eq, Structural)]
pub struct Join {
    pub index: u32,
    pub outcome: JoinOutcome,
}

/// The group's address on an interface.
pub open spec fn group_addr(port: u16, index: u32) -> SocketAddrV6 {
    SocketAddrV6 { ip: GROUP, port, flowinfo: 0, scope_id: index }
}

/// Those addresses and, behind them, the group's address on an interface if it is not among them.
pub open spec fn with_group_addr(
    addrs: Seq<SocketAddrV6>,
    port: u16,
    index: u32,
) -> Seq<SocketAddrV6> {
    if addrs.contains(group_addr(port, index)) {
        addrs
    } else {
        addrs.push(group_addr(port, index))
    }
}

/// Whether the group is to be joined on an interface with those addresses: one of them reaches
/// beyond the machine.
pub open spec fn worth_joining(ipv6: Seq<u128>) -> bool {
    exists|i: int| 0 <= i < ipv6.len() && ipv6[i] != LOOPBACK && ipv6[i] != UNSPECIFIED
}

/// The indices of the interfaces on which the group is to be joined, in the order in which the
/// interfaces are given.
pub open spec fn indices_to_join(interfaces: Seq<Interface>) -> Seq<u32> {
    interfaces.filter(|i: Interface| worth_joining(i.ipv6@)).map_values(|i: Interface| i.index)
}

/// The indices of the interfaces in a listing.
pub open spec fn listing(present: Seq<Interface>) -> Set<u32> {
    present.map_values(|i: Interface| i.index).to_set()
}

/// The interfaces of a node, as mathematics sees them.
pub ghost struct InterfacesView {
    pub ifaces: Seq<SocketAddrV6>,
    pub known: Set<u32>,
    pub port: u16,
}

impl InterfacesView {
    /// Every address is the group's address on a known interface, and none occurs twice.
    pub open spec fn wf(self) -> bool {
        &&& self.ifaces.no_duplicates()
        &&& forall|i: int|
            0 <= i < self.ifaces.len() ==> self.is_known_addr(#[trigger] self.ifaces[i])
    }

    /// Whether an address is the group's address on a known interface.
    pub open spec fn is_known_addr(self, addr: SocketAddrV6) -> bool {
        &&& addr == group_addr(self.port, addr.scope_id)
        &&& self.known.contains(addr.scope_id)
    }

    /// Whether the next announcement goes to that interface.
    pub open spec fn announces_on(self, index: u32) -> bool {
        self.ifaces.contains(group_addr(self.port, index))
    }

    /// After a listing of the interfaces that are present: they are known.
    pub open spec fn seen_all(self, present: Seq<Interface>) -> InterfacesView {
        InterfacesView { known: self.known.union(listing(present)), ..self }
    }

    /// After the group has been joined on an interface: the interface is known, and its address is
    /// the last one if it was not there before.
    pub open spec fn joined(self, index: u32) -> InterfacesView {
        InterfacesView {
            ifaces: with_group_addr(self.ifaces, self.port, index),
            known: self.known.insert(index),
            ..self
        }
    }

    /// After some attempts to join, in order: those that failed change nothing.
    pub open spec fn joined_all(self, joins: Seq<Join>) -> InterfacesView
        decreases joins.len(),
    {
        if joins.len() == 0 {
            self
        } else {
            let before = self.joined_all(joins.drop_last());
            if joins.last().outcome is Failed {
                before
            } else {
                before.joined(joins.last().index)
            }
        }
    }

    /// After an interface has gone: it is not known, and its address is taken out.
    pub open spec fn removed(self, index: u32) -> InterfacesView {
        InterfacesView {
            ifaces: self.ifaces.filter(|addr: SocketAddrV6| addr.scope_id != index),
            known: self.known.remove(index),
            ..self
        }
    }

    /// After some interfaces have gone, in order.
    pub open spec fn removed_all(self, indices: Seq<u32>) -> InterfacesView
        decreases indices.len(),
    {
        if indices.len() == 0 {
            self
        } else {
            self.removed_all(indices.drop_last()).removed(indices.last())
        }
    }

    /// After a change of the interfaces: the listing of those that are present, the attempts to
    /// join the group on some of them, and the indices of those that have gone.
    pub open spec fn updated(
        self,
        present: Seq<Interface>,
        joins: Seq<Join>,
        removed: Seq<u32>,
    ) -> InterfacesView {
        self.seen_all(present).joined_all(joins).removed_all(removed)
    }

    /// After the address at a position has been taken out: the last address takes its place.
    pub open spec fn pruned(self, position: int) -> InterfacesView {
        InterfacesView {
            ifaces: self.ifaces.update(position, self.ifaces.last()).drop_last(),
            ..self
        }
    }

    /// After an address has been taken out, if it was there: the last address takes its place.
    pub open spec fn without(self, addr: SocketAddrV6) -> InterfacesView {
        if self.ifaces.contains(addr) {
            self.pruned(self.ifaces.index_of(addr))
        } else {
            self
        }
    }

    /// After an attempt to send an announcement to that target: where the system has no way to it,
    /// its address has been taken out.
    pub open spec fn after_send(
        self,
        target: SocketAddrV6,
        outcome: SendOutcome,
    ) -> InterfacesView {
        if outcome is HostUnreachable {
            self.without(target)
        } else {
            self
        }
    }

    /// Whether `after` is what a resync can make of these interfaces: the addresses stay, and those
    /// of the known interfaces that were missing follow them, once each and in any order.
    pub open spec fn resynced(self, after: InterfacesView) -> bool {
        &&& after.known == self.known
        &&& after.port == self.port
        &&& self.ifaces.is_prefix_of(after.ifaces)
        &&& after.wf()
        &&& forall|index: u32| self.known.contains(index) ==> #[trigger] after.announces_on(index)
    }
}

/// The interfaces that a node announces itself on.
#[derive(Debug)]
pub struct Interfaces {
    ifaces: Vec<SocketAddrV6>,
    known: HashSet<u32>,
    port: u16,
}

impl View for Interfaces {
    type V = InterfacesView;

    closed spec fn view(&self) -> InterfacesView {
        InterfacesView { ifaces: self.ifaces@, known: self.known@, port: self.port }
    }
}

/// The position of an address among those, if it is there.
fn position(addrs: &Vec<SocketAddrV6>, addr: SocketAddrV6) -> (position: Option<usize>)
    ensures
        position is Some <==> addrs@.contains(addr),
        position matches Some(i) ==> i < addrs@.len() && addrs@[i as int] == addr,
{
    let mut i: usize = 0;
    while i < addrs.len()
        invariant
            i <= addrs@.len(),
            forall|j: int| 0 <= j < i ==> addrs@[j] != addr,
        decreases addrs@.len() - i,
    {
        if addrs[i] == addr {
            return Some(i);
        }
        i += 1;
    }
    None
}

/// Puts the group's address on an interface behind the others, unless it is among them.
fn enable(addrs: &mut Vec<SocketAddrV6>, port: u16, index: u32)
    ensures
        final(addrs)@ == with_group_addr(old(addrs)@, port, index),
{
    let addr = SocketAddrV6 { ip: GROUP, port, flowinfo: 0, scope_id: index };
    if position(addrs, addr).is_none() {
        addrs.push(addr);
    }
}

impl Interfaces {
    /// No interfaces yet, for announcements to that port.
    pub fn new(port: u16) -> (interfaces: Interfaces)
        ensures
            interfaces@.wf(),
            interfaces@ == (InterfacesView { ifaces: Seq::empty(), known: Set::empty(), port }),
    {
        Interfaces { ifaces: Vec::new(), known: HashSet::new(), port }
    }

    /// Takes note that the group has been joined on an interface.
    fn join(&mut self, index: u32)
        requires
            old(self)@.wf(),
        ensures
            final(self)@.wf(),
            final(self)@ == old(self)@.joined(index),
    {
        self.known.insert(index);
        enable(&mut self.ifaces, self.port, index);
    }

    /// Takes note that an interface has gone.
    fn remove(&mut self, index: u32)
        requires
            old(self)@.wf(),
        ensures
            final(self)@.wf(),
            final(self)@ == old(self)@.removed(index),
    {
        let ghost keep = |addr: SocketAddrV6| addr.scope_id != index;
        let ghost before = self.ifaces@;
        let mut kept: Vec<SocketAddrV6> = Vec::new();
        let mut i: usize = 0;
        while i < self.ifaces.len()
            invariant
                i <= self.ifaces@.len(),
                self.ifaces@ == before,
                keep == (|addr: SocketAddrV6| addr.scope_id != index),
                kept@ == before.take(i as int).filter(keep),
            decreases self.ifaces@.len() - i,
        {
            assert(before.take(i + 1).drop_last() =~= before.take(i as int));
            reveal(Seq::filter);
            if self.ifaces[i].scope_id != index {
                kept.push(self.ifaces[i]);
            }
            i += 1;
        }
        assert(before.take(i as int) =~= before);
        self.ifaces = kept;
        self.known.remove(&index);
        proof {
            old(self)@.lemma_removed_wf(index);
        }
    }

    /// Takes note of the interfaces that are present.
    fn see(&mut self, present: &[Interface])
        requires
            old(self)@.wf(),
        ensures
            final(self)@.wf(),
            final(self)@ == old(self)@.seen_all(present@),
    {
        let mut i: usize = 0;
        while i < present.len()
            invariant
                i <= present@.len(),
                self.ifaces == old(self).ifaces,
                self.port == old(self).port,
                self.known@ == old(self).known@.union(listing(present@.take(i as int))),
            decreases present@.len() - i,
        {
            proof {
                lemma_listing_take(present@, i as int);
            }
            self.known.insert(present[i].index);
            i += 1;
        }
        assert(present@.take(i as int) =~= present@);
    }

    /// Takes note of a change of the interfaces: the listing of those that are present, the
    /// attempts to join the group on some of them, and the indices of those that have gone.
    pub fn update(&mut self, present: &[Interface], joins: &[Join], removed: &[u32])
        requires
            old(self)@.wf(),
        ensures
            final(self)@.wf(),
            final(self)@ == old(self)@.updated(present@, joins@, removed@),
    {
        self.see(present);
        let ghost seen = self@;
        let mut i: usize = 0;
        while i < joins.len()
            invariant
                i <= joins@.len(),
                self@.wf(),
                self@ == seen.joined_all(joins@.take(i as int)),
            decreases joins@.len() - i,
        {
            assert(joins@.take(i + 1).drop_last() =~= joins@.take(i as int));
            match joins[i].outcome {
                JoinOutcome::Joined | JoinOutcome::AlreadyJoined => self.join(joins[i].index),
                JoinOutcome::Failed => {},
            }
            i += 1;
        }
        assert(joins@.take(i as int) =~= joins@);
        let ghost middle = self@;
        let mut k: usize = 0;
        while k < removed.len()
            invariant
                k <= removed@.len(),
                self@.wf(),
                self@ == middle.removed_all(removed@.take(k as int)),
            decreases removed@.len() - k,
        {
            assert(removed@.take(k + 1).drop_last() =~= removed@.take(k as int));
            self.remove(removed[k]);
            k += 1;
        }
        assert(removed@.take(k as int) =~= removed@);
    }

    /// Puts back the address of every known interface, whatever sends have failed on it, and
    /// returns how many were missing.
    pub fn resync(&mut self) -> (restored: usize)
        requires
            old(self)@.wf(),
        ensures
            final(self)@.wf(),
            old(self)@.resynced(final(self)@),
            restored == final(self)@.ifaces.len() - old(self)@.ifaces.len(),
    {
        let before = self.ifaces.len();
        for index in it: self.known.iter()
            invariant
                it.seq().unref().to_set() == self.known@,
                self.known@ == old(self)@.known,
                self.port == old(self)@.port,
                old(self)@.ifaces.is_prefix_of(self.ifaces@),
                self@.wf(),
                forall|j: int|
                    0 <= j < it.index() ==> self@.announces_on(*#[trigger] it.seq()[j]),
        {
            let ghost earlier = self@;
            assert(it.seq().unref()[it.index()] == *index);
            enable(&mut self.ifaces, self.port, *index);
            proof {
                lemma_with_group_addr(earlier.ifaces, self.port, *index);
                assert forall|j: int| 0 <= j <= it.index() implies self@.announces_on(
                    *#[trigger] it.seq()[j],
                ) by {
                    if j < it.index() {
                        assert(earlier.announces_on(*it.seq()[j]));
                    }
                }
            }
        }
        self.ifaces.len() - before
    }

    /// Takes out an address, if it is there, and returns whether it was. The last address takes its
    /// place.
    pub fn take_out(&mut self, addr: SocketAddrV6) -> (taken: bool)
        requires
            old(self)@.wf(),
        ensures
            final(self)@.wf(),
            final(self)@ == old(self)@.without(addr),
            taken == old(self)@.ifaces.contains(addr),
    {
        match position(&self.ifaces, addr) {
            Some(i) => {
                assert(self@.ifaces.index_of(addr) == i);
                self.ifaces.swap_remove(i);
                true
            },
            None => false,
        }
    }

    /// The addresses that the next announcement goes to.
    pub fn ifaces(&self) -> (ifaces: Vec<SocketAddrV6>)
        ensures
            ifaces@ == self@.ifaces,
    {
        self.ifaces.clone()
    }

    /// Whether an interface is known.
    pub fn knows(&self, index: u32) -> (known: bool)
        ensures
            known == self@.known.contains(index),
    {
        self.known.contains(&index)
    }
}

impl Interface {
    /// Whether the group is to be joined on the interface.
    pub fn is_worth_joining(&self) -> (worth: bool)
        ensures
            worth == worth_joining(self.ipv6@),
            worth <==> exists|i: int|
                0 <= i < self.ipv6@.len() && self.ipv6@[i] != 0 && self.ipv6@[i] != 1,
    {
        let mut i: usize = 0;
        while i < self.ipv6.len()
            invariant
                i <= self.ipv6@.len(),
                forall|j: int|
                    0 <= j < i ==> self.ipv6@[j] == LOOPBACK || self.ipv6@[j] == UNSPECIFIED,
            decreases self.ipv6@.len() - i,
        {
            if self.ipv6[i] != LOOPBACK && self.ipv6[i] != UNSPECIFIED {
                return true;
            }
            i += 1;
        }
        false
    }
}

/// The indices of the interfaces on which the group is to be joined, in the order in which the
/// interfaces are given.
pub fn to_join(interfaces: &[Interface]) -> (indices: Vec<u32>)
    ensures
        indices@ == indices_to_join(interfaces@),
{
    let mut indices: Vec<u32> = Vec::new();
    let mut i: usize = 0;
    while i < interfaces.len()
        invariant
            i <= interfaces@.len(),
            indices@ == indices_to_join(interfaces@.take(i as int)),
        decreases interfaces@.len() - i,
    {
        assert(interfaces@.take(i + 1).drop_last() =~= interfaces@.take(i as int));
        reveal(Seq::filter);
        if interfaces[i].is_worth_joining() {
            indices.push(interfaces[i].index);
        }
        i += 1;
    }
    assert(interfaces@.take(i as int) =~= interfaces@);
    indices
}

/// One more interface brings its index into the listing.
proof fn lemma_listing_take(present: Seq<Interface>, i: int)
    requires
        0 <= i < present.len(),
    ensures
        listing(present.take(i + 1)) == listing(present.take(i)).insert(present[i].index),
{
    let indices = |s: Seq<Interface>| s.map_values(|i: Interface| i.index);
    let fewer = indices(present.take(i));
    let more = indices(present.take(i + 1));
    assert(more =~= fewer.push(present[i].index));
    assert forall|index: u32| more.contains(index) <==> fewer.contains(index) || index
        == present[i].index by {
        if fewer.contains(index) {
            assert(more[fewer.index_of(index)] == index);
        }
        assert(more[i] == present[i].index);
    }
    assert(listing(present.take(i + 1)) =~= listing(present.take(i)).insert(present[i].index));
}

/// With the group's address on an interface put behind them, the addresses are the same but for
/// that one.
proof fn lemma_with_group_addr(addrs: Seq<SocketAddrV6>, port: u16, index: u32)
    ensures
        forall|addr: SocketAddrV6| #[trigger]
            with_group_addr(addrs, port, index).contains(addr) <==> addrs.contains(addr) || addr
                == group_addr(port, index),
{
    let after = with_group_addr(addrs, port, index);
    assert forall|addr: SocketAddrV6| addrs.contains(addr) implies #[trigger] after.contains(
        addr,
    ) by {
        let i = addrs.index_of(addr);
        assert(after[i] == addr);
    }
    assert(after.contains(group_addr(port, index))) by {
        if !addrs.contains(group_addr(port, index)) {
            assert(after.last() == group_addr(port, index));
        }
    }
}

/// A filter brings in no duplicates.
proof fn lemma_filter_no_duplicates(addrs: Seq<SocketAddrV6>, keep: spec_fn(SocketAddrV6) -> bool)
    requires
        addrs.no_duplicates(),
    ensures
        addrs.filter(keep).no_duplicates(),
    decreases addrs.len(),
{
    reveal(Seq::filter);
    if addrs.len() > 0 {
        let rest = addrs.drop_last();
        lemma_filter_no_duplicates(rest, keep);
        if rest.filter(keep).contains(addrs.last()) {
            rest.lemma_filter_contains_rev(keep, addrs.last());
        }
    }
}

impl InterfacesView {
    /// What is left when an interface has gone is well formed.
    pub(crate) proof fn lemma_removed_wf(self, index: u32)
        requires
            self.wf(),
        ensures
            self.removed(index).wf(),
    {
        let keep = |addr: SocketAddrV6| addr.scope_id != index;
        let after = self.removed(index);
        lemma_filter_no_duplicates(self.ifaces, keep);
        assert forall|i: int| 0 <= i < after.ifaces.len() implies after.is_known_addr(
            #[trigger] after.ifaces[i],
        ) by {
            self.ifaces.lemma_filter_pred(keep, i);
            self.ifaces.lemma_filter_contains_rev(keep, after.ifaces[i]);
        }
    }
}

} // verus!
