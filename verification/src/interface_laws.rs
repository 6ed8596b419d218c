//! What holds of the interfaces of a node, over any course of events.

use vstd::prelude::*;
use crate::addr::SocketAddrV6;
use crate::interfaces::{
    group_addr, indices_to_join, listing, worth_joining, Interface, InterfacesView, Join,
};
use crate::send::SendOutcome;

verus! {

/// Something that changes the interfaces of a node.
pub ghost enum Change {
    Updated { present: Seq<Interface>, joins: Seq<Join>, removed: Seq<u32> },
    Sent { target: SocketAddrV6, outcome: SendOutcome },
    Resynced,
}

/// Whether a change can lead from the one state to the other.
pub open spec fn leads_to(before: InterfacesView, change: Change, after: InterfacesView) -> bool {
    match change {
        Change::Updated { present, joins, removed } => after == before.updated(
            present,
            joins,
            removed,
        ),
        Change::Sent { target, outcome } => after == before.after_send(target, outcome),
        Change::Resynced => before.resynced(after),
    }
}

/// Whether the interfaces can go through those states by those changes. Announcements, updates and
/// resyncs may come in any order; an update may come between two sends of one announcement.
pub open spec fn is_course(states: Seq<InterfacesView>, changes: Seq<Change>) -> bool {
    &&& states.len() == changes.len() + 1
    &&& states[0].wf()
    &&& forall|i: int|
        0 <= i < changes.len() ==> leads_to(states[i], #[trigger] changes[i], states[i + 1])
}

/// The course without its last change.
proof fn lemma_shorter_course(states: Seq<InterfacesView>, changes: Seq<Change>)
    requires
        is_course(states, changes),
        changes.len() > 0,
    ensures
        is_course(states.drop_last(), changes.drop_last()),
        states.drop_last().last() == states[states.len() - 2],
        leads_to(states[states.len() - 2], changes.last(), states.last()),
{
    let fewer = changes.drop_last();
    assert forall|i: int| 0 <= i < fewer.len() implies leads_to(
        states.drop_last()[i],
        #[trigger] fewer[i],
        states.drop_last()[i + 1],
    ) by {
        assert(fewer[i] == changes[i]);
    }
    assert(changes.last() == changes[changes.len() - 1]);
}

/// What taking out the address at a position does.
proof fn lemma_pruned(interfaces: InterfacesView, position: int)
    requires
        interfaces.wf(),
        0 <= position < interfaces.ifaces.len(),
    ensures
        interfaces.pruned(position).wf(),
        forall|i: int|
            0 <= i < position ==> interfaces.pruned(position).ifaces[i] == interfaces.ifaces[i],
        forall|addr: SocketAddrV6| #[trigger]
            interfaces.pruned(position).ifaces.contains(addr) <==> interfaces.ifaces.contains(addr)
                && addr != interfaces.ifaces[position],
{
    let before = interfaces.ifaces;
    let after = interfaces.pruned(position).ifaces;
    let last = before.len() - 1;
    assert forall|addr: SocketAddrV6|
        before.contains(addr) && addr != before[position] implies #[trigger] after.contains(
        addr,
    ) by {
        let i = before.index_of(addr);
        if i == last {
            assert(after[position] == addr);
        } else {
            assert(after[i] == addr);
        }
    }
    assert forall|addr: SocketAddrV6| #[trigger] after.contains(addr) implies before.contains(addr)
        && addr != before[position] by {
        let i = after.index_of(addr);
        if i == position {
            assert(before[last] == addr);
        } else {
            assert(before[i] == addr);
        }
    }
}

/// A send that finds no way takes out the address that it went to, and no other; any other send
/// takes out nothing. The known interfaces stay. This holds of any state, so whatever has happened
/// to the interfaces since the announcement started.
pub proof fn law_send_takes_out_its_target(
    before: InterfacesView,
    target: SocketAddrV6,
    outcome: SendOutcome,
)
    requires
        before.wf(),
    ensures
        ({
            let after = before.after_send(target, outcome);
            &&& after.wf()
            &&& after.known == before.known
            &&& after.port == before.port
            &&& forall|addr: SocketAddrV6| #[trigger]
                after.ifaces.contains(addr) <==> before.ifaces.contains(addr) && !(addr == target
                    && outcome is HostUnreachable)
        }),
{
    if before.ifaces.contains(target) {
        lemma_pruned(before, before.ifaces.index_of(target));
    }
}

/// The interfaces after an announcement to those targets, if the outcome of the send to each is
/// that and nothing else happens meanwhile; so many targets are left, and they are served from the
/// last to the first.
pub open spec fn after_announcement(
    before: InterfacesView,
    targets: Seq<SocketAddrV6>,
    outcomes: Seq<SendOutcome>,
    pending: nat,
) -> InterfacesView
    decreases pending,
{
    if pending == 0 {
        before
    } else {
        let position = pending - 1;
        let next = before.after_send(targets[position], outcomes[position]);
        after_announcement(next, targets, outcomes, position as nat)
    }
}

/// Whether, all through that announcement, the next target still stands at its old position.
pub open spec fn targets_stay_in_place(
    before: InterfacesView,
    targets: Seq<SocketAddrV6>,
    outcomes: Seq<SendOutcome>,
    pending: nat,
) -> bool
    decreases pending,
{
    pending > 0 ==> {
        let position = pending - 1;
        let next = before.after_send(targets[position], outcomes[position]);
        &&& position < before.ifaces.len()
        &&& before.ifaces[position] == targets[position]
        &&& targets_stay_in_place(next, targets, outcomes, position as nat)
    }
}

/// Whether the send to an address is among those that are left and finds no way.
pub open spec fn is_unreachable(
    targets: Seq<SocketAddrV6>,
    outcomes: Seq<SendOutcome>,
    pending: nat,
    addr: SocketAddrV6,
) -> bool {
    exists|i: int|
        0 <= i < pending && #[trigger] targets[i] == addr && outcomes[i] is HostUnreachable
}

/// What the rest of an announcement does.
proof fn lemma_after_announcement(
    now: InterfacesView,
    targets: Seq<SocketAddrV6>,
    outcomes: Seq<SendOutcome>,
    pending: nat,
)
    requires
        now.wf(),
        pending <= targets.len(),
        outcomes.len() == targets.len(),
        pending <= now.ifaces.len(),
        forall|i: int| 0 <= i < pending ==> now.ifaces[i] == targets[i],
    ensures
        targets_stay_in_place(now, targets, outcomes, pending),
        after_announcement(now, targets, outcomes, pending).wf(),
        after_announcement(now, targets, outcomes, pending).known == now.known,
        after_announcement(now, targets, outcomes, pending).port == now.port,
        forall|addr: SocketAddrV6| #[trigger]
            after_announcement(now, targets, outcomes, pending).ifaces.contains(addr)
                <==> now.ifaces.contains(addr) && !is_unreachable(targets, outcomes, pending, addr),
    decreases pending,
{
    if pending > 0 {
        let position = pending - 1;
        let fewer = position as nat;
        let next = now.after_send(targets[position], outcomes[position]);
        law_send_takes_out_its_target(now, targets[position], outcomes[position]);
        assert(now.ifaces.contains(targets[position]));
        assert(now.ifaces.index_of(targets[position]) == position);
        lemma_pruned(now, position);
        lemma_after_announcement(next, targets, outcomes, fewer);
        let after = after_announcement(now, targets, outcomes, pending);
        assert forall|addr: SocketAddrV6| #[trigger]
            after.ifaces.contains(addr) <==> now.ifaces.contains(addr) && !is_unreachable(
                targets,
                outcomes,
                pending,
                addr,
            ) by {
            assert(after.ifaces.contains(addr) <==> next.ifaces.contains(addr) && !is_unreachable(
                targets,
                outcomes,
                fewer,
                addr,
            ));
            if is_unreachable(targets, outcomes, pending, addr) {
                let i = choose|i: int|
                    0 <= i < pending && #[trigger] targets[i] == addr
                        && outcomes[i] is HostUnreachable;
                if i < fewer {
                    assert(is_unreachable(targets, outcomes, fewer, addr));
                }
            }
            if outcomes[position] is HostUnreachable && addr == targets[position] {
                assert(is_unreachable(targets, outcomes, pending, addr));
            }
        }
    }
}

/// An announcement during which nothing else happens takes out exactly the addresses that the
/// system has no way to. Though every address that is taken out moves another one, the targets that
/// are left stand where they stood at its start, because it goes from the last to the first. The
/// known interfaces stay.
pub proof fn law_announcement_takes_out_the_unreachable(
    before: InterfacesView,
    outcomes: Seq<SendOutcome>,
)
    requires
        before.wf(),
        outcomes.len() == before.ifaces.len(),
    ensures
        targets_stay_in_place(before, before.ifaces, outcomes, before.ifaces.len()),
        ({
            let after = after_announcement(before, before.ifaces, outcomes, before.ifaces.len());
            &&& after.wf()
            &&& after.known == before.known
            &&& after.port == before.port
            &&& forall|addr: SocketAddrV6| #[trigger]
                after.ifaces.contains(addr) <==> exists|i: int|
                    0 <= i < before.ifaces.len() && #[trigger] before.ifaces[i] == addr && !(
                    outcomes[i] is HostUnreachable)
        }),
{
    lemma_after_announcement(before, before.ifaces, outcomes, before.ifaces.len());
    let after = after_announcement(before, before.ifaces, outcomes, before.ifaces.len());
    assert forall|addr: SocketAddrV6| #[trigger] after.ifaces.contains(addr) <==> exists|i: int|
        0 <= i < before.ifaces.len() && #[trigger] before.ifaces[i] == addr && !(
        outcomes[i] is HostUnreachable) by {
        assert(after.ifaces.contains(addr) <==> before.ifaces.contains(addr) && !is_unreachable(
            before.ifaces,
            outcomes,
            before.ifaces.len(),
            addr,
        ));
        if before.ifaces.contains(addr) {
            let i = before.ifaces.index_of(addr);
            assert(before.ifaces[i] == addr);
        }
    }
}

/// Only known interfaces are announced on.
pub proof fn law_announced_is_known(interfaces: InterfacesView, index: u32)
    requires
        interfaces.wf(),
        interfaces.announces_on(index),
    ensures
        interfaces.known.contains(index),
{
    let i = interfaces.ifaces.index_of(group_addr(interfaces.port, index));
    assert(interfaces.is_known_addr(interfaces.ifaces[i]));
}

/// After a resync exactly the known interfaces are announced on.
pub proof fn law_resync_restores_all_known(
    before: InterfacesView,
    after: InterfacesView,
    index: u32,
)
    requires
        before.wf(),
        before.resynced(after),
    ensures
        after.announces_on(index) <==> before.known.contains(index),
{
    if after.announces_on(index) {
        law_announced_is_known(after, index);
    }
}

/// A resync right after another one changes nothing.
pub proof fn law_resync_twice_is_once(
    before: InterfacesView,
    once: InterfacesView,
    twice: InterfacesView,
)
    requires
        before.wf(),
        before.resynced(once),
        once.resynced(twice),
    ensures
        twice == once,
{
    let old_len = once.ifaces.len() as int;
    if twice.ifaces.len() > old_len {
        let addr = twice.ifaces[old_len];
        assert(twice.is_known_addr(addr));
        assert(once.announces_on(addr.scope_id));
        let i = once.ifaces.index_of(addr);
        assert(twice.ifaces[i] == once.ifaces[i]);
        assert(false);
    }
    assert(twice.ifaces =~= once.ifaces);
}

/// What a join does.
proof fn lemma_joined(interfaces: InterfacesView, index: u32)
    ensures
        forall|other: u32| #[trigger]
            interfaces.joined(index).announces_on(other) <==> interfaces.announces_on(other)
                || other == index,
{
    let after = interfaces.joined(index);
    assert forall|other: u32| interfaces.announces_on(other) || other == index implies #[trigger]
        after.announces_on(other) by {
        let addr = group_addr(interfaces.port, other);
        if interfaces.ifaces.contains(addr) {
            assert(after.ifaces[interfaces.ifaces.index_of(addr)] == addr);
        } else {
            assert(after.ifaces.last() == addr);
        }
    }
}

/// A join of an interface that is announced on already changes nothing.
pub proof fn law_join_again_changes_nothing(before: InterfacesView, index: u32)
    requires
        before.wf(),
        before.announces_on(index),
    ensures
        before.joined(index) == before,
{
    law_announced_is_known(before, index);
    assert(before.known.insert(index) =~= before.known);
}

/// Whether the group was joined on an interface by one of those attempts.
pub open spec fn joined_by(joins: Seq<Join>, index: u32) -> bool {
    exists|i: int|
        0 <= i < joins.len() && #[trigger] joins[i].index == index && !(joins[i].outcome is Failed)
}

/// What some attempts to join do to one interface.
proof fn lemma_joined_all(before: InterfacesView, joins: Seq<Join>, index: u32)
    requires
        before.wf(),
    ensures
        before.joined_all(joins).wf(),
        before.joined_all(joins).port == before.port,
        before.joined_all(joins).known.contains(index) <==> before.known.contains(index)
            || joined_by(joins, index),
        before.joined_all(joins).announces_on(index) <==> before.announces_on(index) || joined_by(
            joins,
            index,
        ),
    decreases joins.len(),
{
    if joins.len() > 0 {
        let fewer = joins.drop_last();
        lemma_joined_all(before, fewer, index);
        lemma_joined(before.joined_all(fewer), joins.last().index);
        if joined_by(fewer, index) {
            let i = choose|i: int|
                0 <= i < fewer.len() && #[trigger] fewer[i].index == index && !(
                fewer[i].outcome is Failed);
            assert(joins[i].index == index);
        }
        if joined_by(joins, index) {
            let i = choose|i: int|
                0 <= i < joins.len() && #[trigger] joins[i].index == index && !(
                joins[i].outcome is Failed);
            if i < fewer.len() {
                assert(fewer[i].index == index);
            }
        }
        if joins.last().index == index && !(joins.last().outcome is Failed) {
            assert(joins[joins.len() - 1].index == index);
        }
    }
}

/// What the going of some interfaces does to one of them.
proof fn lemma_removed_all(before: InterfacesView, indices: Seq<u32>, index: u32)
    requires
        before.wf(),
    ensures
        before.removed_all(indices).wf(),
        before.removed_all(indices).port == before.port,
        before.removed_all(indices).known.contains(index) <==> before.known.contains(index)
            && !indices.contains(index),
        before.removed_all(indices).announces_on(index) <==> before.announces_on(index)
            && !indices.contains(index),
    decreases indices.len(),
{
    if indices.len() > 0 {
        let fewer = indices.drop_last();
        let middle = before.removed_all(fewer);
        let gone = indices.last();
        let keep = |addr: SocketAddrV6| addr.scope_id != gone;
        let addr = group_addr(before.port, index);
        lemma_removed_all(before, fewer, index);
        middle.lemma_removed_wf(gone);
        assert(indices =~= fewer.push(gone));
        assert(indices.contains(index) <==> fewer.contains(index) || index == gone) by {
            if fewer.contains(index) {
                assert(indices[fewer.index_of(index)] == index);
            }
            if index == gone {
                assert(indices[indices.len() - 1] == index);
            }
        }
        if middle.ifaces.contains(addr) && index != gone {
            middle.ifaces.lemma_filter_contains(keep, middle.ifaces.index_of(addr));
        }
        if middle.ifaces.filter(keep).contains(addr) {
            middle.ifaces.lemma_filter_contains_rev(keep, addr);
            middle.ifaces.lemma_filter_pred(keep, middle.ifaces.filter(keep).index_of(addr));
        }
    }
}

/// After a change of the interfaces an interface is known if and only if it was so before, or it is
/// listed, or the group was joined on it, and it is not among those that have gone. It is announced
/// on if and only if it was so before or the group was joined on it, and it is not among those that
/// have gone.
pub proof fn law_update(
    before: InterfacesView,
    present: Seq<Interface>,
    joins: Seq<Join>,
    removed: Seq<u32>,
    index: u32,
)
    requires
        before.wf(),
    ensures
        ({
            let after = before.updated(present, joins, removed);
            &&& after.wf()
            &&& after.port == before.port
            &&& after.known.contains(index) <==> (before.known.contains(index) || listing(
                present,
            ).contains(index) || joined_by(joins, index)) && !removed.contains(index)
            &&& after.announces_on(index) <==> (before.announces_on(index) || joined_by(
                joins,
                index,
            )) && !removed.contains(index)
        }),
{
    let seen = before.seen_all(present);
    assert(seen.wf());
    lemma_joined_all(seen, joins, index);
    lemma_removed_all(seen.joined_all(joins), removed, index);
}

/// Whether an update can follow that listing: the group is joined on listed interfaces only, and
/// those that have gone are those that were listed before and are so no longer.
pub open spec fn follows(
    earlier: Set<u32>,
    present: Seq<Interface>,
    joins: Seq<Join>,
    removed: Seq<u32>,
) -> bool {
    &&& forall|i: int| 0 <= i < joins.len() ==> listing(present).contains(#[trigger] joins[i].index)
    &&& forall|index: u32| #[trigger]
        removed.contains(index) <==> earlier.contains(index) && !listing(present).contains(index)
}

/// The group is to be joined on listed interfaces only.
pub proof fn law_joins_are_listed(present: Seq<Interface>, i: int)
    requires
        0 <= i < indices_to_join(present).len(),
    ensures
        listing(present).contains(indices_to_join(present)[i]),
{
    let worth = |i: Interface| worth_joining(i.ipv6@);
    let indices = present.map_values(|i: Interface| i.index);
    let chosen = present.filter(worth)[i];
    present.lemma_filter_contains_rev(worth, chosen);
    assert(indices[present.index_of(chosen)] == chosen.index);
}

/// If the known interfaces are those of the earlier listing, they are those of the new listing
/// after an update: every interface that is present, and no other. Neither the addresses of an
/// interface nor a join that failed on it has a part in it.
pub proof fn law_known_is_the_listing(
    before: InterfacesView,
    present: Seq<Interface>,
    joins: Seq<Join>,
    removed: Seq<u32>,
)
    requires
        before.wf(),
        follows(before.known, present, joins, removed),
    ensures
        before.updated(present, joins, removed).known == listing(present),
{
    let after = before.updated(present, joins, removed);
    assert forall|index: u32| #[trigger] after.known.contains(index) <==> listing(
        present,
    ).contains(index) by {
        law_update(before, present, joins, removed, index);
    }
    assert(after.known =~= listing(present));
}

/// The listing of the last update among those changes, or the earlier one if there is none.
pub open spec fn last_listing(earlier: Set<u32>, changes: Seq<Change>) -> Set<u32>
    decreases changes.len(),
{
    if changes.len() == 0 {
        earlier
    } else {
        match changes.last() {
            Change::Updated { present, .. } => listing(present),
            _ => last_listing(earlier, changes.drop_last()),
        }
    }
}

/// Whether each update among those changes follows the one before it.
pub open spec fn updates_follow(earlier: Set<u32>, changes: Seq<Change>) -> bool
    decreases changes.len(),
{
    changes.len() > 0 ==> {
        let fewer = changes.drop_last();
        &&& updates_follow(earlier, fewer)
        &&& changes.last() matches Change::Updated { present, joins, removed } ==> follows(
            last_listing(earlier, fewer),
            present,
            joins,
            removed,
        )
    }
}

/// All through any course of announcements, updates and resyncs the interfaces stay well formed.
pub proof fn law_course_keeps_wf(states: Seq<InterfacesView>, changes: Seq<Change>)
    requires
        is_course(states, changes),
    ensures
        states.last().wf(),
        states.last().port == states[0].port,
    decreases changes.len(),
{
    if changes.len() > 0 {
        let before = states[states.len() - 2];
        lemma_shorter_course(states, changes);
        law_course_keeps_wf(states.drop_last(), changes.drop_last());
        match changes.last() {
            Change::Updated { present, joins, removed } => {
                law_update(before, present, joins, removed, 0);
            },
            Change::Sent { target, outcome } => {
                law_send_takes_out_its_target(before, target, outcome);
            },
            Change::Resynced => {},
        }
    }
}

/// Over any course of announcements, updates and resyncs that starts with the known interfaces as
/// listed, the known interfaces are those of the last listing: every interface that is present, and
/// no other.
pub proof fn law_known_is_the_last_listing(states: Seq<InterfacesView>, changes: Seq<Change>)
    requires
        is_course(states, changes),
        updates_follow(states[0].known, changes),
    ensures
        states.last().known == last_listing(states[0].known, changes),
    decreases changes.len(),
{
    if changes.len() > 0 {
        let before = states[states.len() - 2];
        lemma_shorter_course(states, changes);
        law_known_is_the_last_listing(states.drop_last(), changes.drop_last());
        law_course_keeps_wf(states.drop_last(), changes.drop_last());
        match changes.last() {
            Change::Updated { present, joins, removed } => {
                law_known_is_the_listing(before, present, joins, removed);
            },
            Change::Sent { target, outcome } => {
                law_send_takes_out_its_target(before, target, outcome);
            },
            Change::Resynced => {},
        }
    }
}

/// Whether a change takes out an address: a send to it finds no way, or its interface has gone.
pub open spec fn takes_out(change: Change, addr: SocketAddrV6) -> bool {
    match change {
        Change::Updated { present, joins, removed } => removed.contains(addr.scope_id),
        Change::Sent { target, outcome } => target == addr && outcome is HostUnreachable,
        Change::Resynced => false,
    }
}

/// An address that is there stays over a change that does not take it out.
proof fn lemma_address_stays(
    before: InterfacesView,
    change: Change,
    after: InterfacesView,
    addr: SocketAddrV6,
)
    requires
        before.wf(),
        leads_to(before, change, after),
        before.ifaces.contains(addr),
        !takes_out(change, addr),
    ensures
        after.ifaces.contains(addr),
{
    assert(before.is_known_addr(before.ifaces[before.ifaces.index_of(addr)]));
    match change {
        Change::Updated { present, joins, removed } => {
            law_update(before, present, joins, removed, addr.scope_id);
            assert(before.announces_on(addr.scope_id));
            assert(after.announces_on(addr.scope_id));
        },
        Change::Sent { target, outcome } => {
            law_send_takes_out_its_target(before, target, outcome);
        },
        Change::Resynced => {
            assert(after.ifaces[before.ifaces.index_of(addr)] == addr);
        },
    }
}

/// Over any course of announcements, updates and resyncs an address that is there at some point
/// leaves only if a send to it finds no way or its interface has gone. In particular an update
/// between the sends of an announcement makes none of them take out another address than its own.
pub proof fn law_address_leaves_with_cause(
    states: Seq<InterfacesView>,
    changes: Seq<Change>,
    from: int,
    addr: SocketAddrV6,
)
    requires
        is_course(states, changes),
        0 <= from < states.len(),
        states[from].ifaces.contains(addr),
        forall|i: int| from <= i < changes.len() ==> !takes_out(#[trigger] changes[i], addr),
    ensures
        states.last().ifaces.contains(addr),
    decreases changes.len(),
{
    if from < changes.len() {
        let fewer = changes.drop_last();
        let before = states[states.len() - 2];
        lemma_shorter_course(states, changes);
        assert forall|i: int| from <= i < fewer.len() implies !takes_out(
            #[trigger] fewer[i],
            addr,
        ) by {
            assert(fewer[i] == changes[i]);
        }
        law_address_leaves_with_cause(states.drop_last(), fewer, from, addr);
        law_course_keeps_wf(states.drop_last(), fewer);
        assert(!takes_out(changes[changes.len() - 1], addr));
        lemma_address_stays(before, changes.last(), states.last(), addr);
    }
}

/// The course up to a state.
proof fn lemma_course_up_to(states: Seq<InterfacesView>, changes: Seq<Change>, n: int)
    requires
        is_course(states, changes),
        0 <= n <= changes.len(),
    ensures
        is_course(states.take(n + 1), changes.take(n)),
        states.take(n + 1).last() == states[n],
{
    let some = changes.take(n);
    assert forall|i: int| 0 <= i < some.len() implies leads_to(
        states.take(n + 1)[i],
        #[trigger] some[i],
        states.take(n + 1)[i + 1],
    ) by {
        assert(some[i] == changes[i]);
    }
}

/// Whether a change is an update after which an interface is gone.
pub open spec fn removes(change: Change, index: u32) -> bool {
    change matches Change::Updated { present, joins, removed } && removed.contains(index)
}

/// Whether a change is an update that lists an interface or joins the group on it.
pub open spec fn brings_in(change: Change, index: u32) -> bool {
    change matches Change::Updated { present, joins, removed } && (listing(present).contains(index)
        || joined_by(joins, index))
}

/// Over any course of announcements, updates and resyncs a known interface stays known until an
/// update removes it.
pub proof fn law_known_until_removed(
    states: Seq<InterfacesView>,
    changes: Seq<Change>,
    index: u32,
)
    requires
        is_course(states, changes),
        states[0].known.contains(index),
        forall|i: int| 0 <= i < changes.len() ==> !removes(#[trigger] changes[i], index),
    ensures
        states.last().known.contains(index),
    decreases changes.len(),
{
    if changes.len() > 0 {
        let fewer = changes.drop_last();
        let before = states[states.len() - 2];
        lemma_shorter_course(states, changes);
        assert forall|i: int| 0 <= i < fewer.len() implies !removes(#[trigger] fewer[i], index) by {
            assert(fewer[i] == changes[i]);
        }
        law_known_until_removed(states.drop_last(), fewer, index);
        law_course_keeps_wf(states.drop_last(), fewer);
        assert(!removes(changes[changes.len() - 1], index));
        match changes.last() {
            Change::Updated { present, joins, removed } => {
                law_update(before, present, joins, removed, index);
            },
            Change::Sent { target, outcome } => {
                law_send_takes_out_its_target(before, target, outcome);
            },
            Change::Resynced => {},
        }
    }
}

/// A resync heals failed sends: whatever sends on a known interface have found no way before it,
/// and whatever else has happened, the interface is announced on from the resync at that position
/// on, until a send finds no way again or the interface goes.
pub proof fn law_resync_heals(
    states: Seq<InterfacesView>,
    changes: Seq<Change>,
    resync: int,
    index: u32,
)
    requires
        is_course(states, changes),
        states[0].known.contains(index),
        0 <= resync < changes.len(),
        changes[resync] is Resynced,
        forall|i: int| 0 <= i < resync ==> !removes(#[trigger] changes[i], index),
        forall|i: int|
            resync < i < changes.len() ==> !takes_out(
                #[trigger] changes[i],
                group_addr(states[0].port, index),
            ),
    ensures
        states[resync + 1].announces_on(index),
        states.last().announces_on(index),
{
    let some = changes.take(resync);
    lemma_course_up_to(states, changes, resync);
    assert forall|i: int| 0 <= i < some.len() implies !removes(#[trigger] some[i], index) by {
        assert(some[i] == changes[i]);
    }
    law_known_until_removed(states.take(resync + 1), some, index);
    law_course_keeps_wf(states.take(resync + 1), some);
    assert(leads_to(states[resync], changes[resync], states[resync + 1]));
    assert(states[resync + 1].announces_on(index));
    law_course_keeps_wf(states, changes);
    law_address_leaves_with_cause(
        states,
        changes,
        resync + 1,
        group_addr(states[0].port, index),
    );
}

/// A join heals failed sends too, be it the first on an interface or not: whatever has happened
/// before the update at that position, the interface is announced on from there on, until a send
/// finds no way again or the interface goes.
pub proof fn law_join_heals(
    states: Seq<InterfacesView>,
    changes: Seq<Change>,
    update: int,
    index: u32,
)
    requires
        is_course(states, changes),
        0 <= update < changes.len(),
        changes[update] matches Change::Updated { present, joins, removed } && joined_by(
            joins,
            index,
        ) && !removed.contains(index),
        forall|i: int|
            update < i < changes.len() ==> !takes_out(
                #[trigger] changes[i],
                group_addr(states[0].port, index),
            ),
    ensures
        states[update + 1].announces_on(index),
        states.last().announces_on(index),
{
    lemma_course_up_to(states, changes, update);
    law_course_keeps_wf(states.take(update + 1), changes.take(update));
    assert(leads_to(states[update], changes[update], states[update + 1]));
    if let Change::Updated { present, joins, removed } = changes[update] {
        law_update(states[update], present, joins, removed, index);
    }
    law_course_keeps_wf(states, changes);
    law_address_leaves_with_cause(
        states,
        changes,
        update + 1,
        group_addr(states[0].port, index),
    );
}

/// After an update that removes an interface it is neither known nor announced on.
pub proof fn law_removed_is_out(
    before: InterfacesView,
    present: Seq<Interface>,
    joins: Seq<Join>,
    removed: Seq<u32>,
    index: u32,
)
    requires
        before.wf(),
        removed.contains(index),
    ensures
        !before.updated(present, joins, removed).known.contains(index),
        !before.updated(present, joins, removed).announces_on(index),
{
    law_update(before, present, joins, removed, index);
}

/// An interface that is not known stays so, and is not announced on, over any course of
/// announcements, updates and resyncs in which no update lists it or joins the group on it. So no
/// resync brings back an interface that has gone.
pub proof fn law_removed_stays_out(states: Seq<InterfacesView>, changes: Seq<Change>, index: u32)
    requires
        is_course(states, changes),
        !states[0].known.contains(index),
        forall|i: int| 0 <= i < changes.len() ==> !brings_in(#[trigger] changes[i], index),
    ensures
        !states.last().known.contains(index),
        !states.last().announces_on(index),
    decreases changes.len(),
{
    if changes.len() > 0 {
        let fewer = changes.drop_last();
        let before = states[states.len() - 2];
        lemma_shorter_course(states, changes);
        assert forall|i: int| 0 <= i < fewer.len() implies !brings_in(
            #[trigger] fewer[i],
            index,
        ) by {
            assert(fewer[i] == changes[i]);
        }
        law_removed_stays_out(states.drop_last(), fewer, index);
        law_course_keeps_wf(states.drop_last(), fewer);
        assert(!brings_in(changes[changes.len() - 1], index));
        match changes.last() {
            Change::Updated { present, joins, removed } => {
                law_update(before, present, joins, removed, index);
            },
            Change::Sent { target, outcome } => {
                law_send_takes_out_its_target(before, target, outcome);
            },
            Change::Resynced => {},
        }
    }
    law_course_keeps_wf(states, changes);
    if states.last().announces_on(index) {
        law_announced_is_known(states.last(), index);
    }
}

} // verus!
