use std::collections::HashSet;

use networking::addr::SocketAddrV6;
use networking::discovery::{Discovery, Event, Step};
use networking::interfaces::{to_join, Interface, Interfaces, Join, JoinOutcome, GROUP};
use networking::send::SendOutcome;
use networking::zid::ZenohId;

const PORT: u16 = 52415;

fn on(index: u32) -> SocketAddrV6 {
    SocketAddrV6 { ip: GROUP, port: PORT, flowinfo: 0, scope_id: index }
}

fn joined(index: u32) -> Join {
    Join { index, outcome: JoinOutcome::Joined }
}

/// Interfaces with those indices, each with a link-local address.
fn present(indices: &[u32]) -> Vec<Interface> {
    indices.iter().map(|&index| Interface { index, ipv6: vec![0xfe80 << 112 | 1] }).collect()
}

fn with_joined(indices: &[u32]) -> Interfaces {
    let mut interfaces = Interfaces::new(PORT);
    let joins: Vec<Join> = indices.iter().map(|&index| joined(index)).collect();
    interfaces.update(&present(indices), &joins, &[]);
    interfaces
}

fn node() -> Discovery {
    let mut bytes = [0u8; 16];
    bytes[0] = 1;
    let zid = ZenohId::from_le_bytes(bytes).unwrap();
    Discovery::with_nonce(zid, [7; 8], 4000, PORT, [0; 8])
}

fn node_with_joined(indices: &[u32]) -> Discovery {
    let mut node = node();
    let joins: Vec<Join> = indices.iter().map(|&index| joined(index)).collect();
    node.update_interfaces(&present(indices), &joins, &[]);
    node
}

fn indices(ifaces: &[SocketAddrV6]) -> Vec<u32> {
    ifaces.iter().map(|addr| addr.scope_id).collect()
}

/// Sends an announcement: to each of those interfaces the way is missing.
fn announce(node: &mut Discovery, unreachable: &[u32]) -> Vec<u32> {
    let mut announcement = node.announce_with([9; 8]);
    let mut served = Vec::new();
    while let Some(target) = announcement.target() {
        served.push(target.scope_id);
        let outcome = if unreachable.contains(&target.scope_id) {
            SendOutcome::HostUnreachable
        } else {
            SendOutcome::Sent(20)
        };
        let pruned = node.announce_sent(&mut announcement, outcome);
        assert_eq!(pruned, outcome == SendOutcome::HostUnreachable);
    }
    served
}

#[test]
fn group_is_the_multicast_address() {
    let segments: [u16; 8] = [0xff12, 0, 0, 0, 0, 0, 0xe0a1, 0xde89];
    let bits = segments.iter().fold(0u128, |bits, &segment| bits << 16 | segment as u128);
    assert_eq!(GROUP, bits);
}

#[test]
fn only_interfaces_that_reach_out_are_joined() {
    let link_local: u128 = 0xfe80_0000_0000_0000_0000_0000_0000_0001;
    let present = vec![
        Interface { index: 1, ipv6: vec![1] },
        Interface { index: 2, ipv6: vec![link_local] },
        Interface { index: 3, ipv6: vec![] },
        Interface { index: 4, ipv6: vec![0, 1] },
        Interface { index: 5, ipv6: vec![1, 0, link_local] },
    ];
    assert_eq!(to_join(&present), vec![2, 5]);
    assert_eq!(to_join(&[]), Vec::<u32>::new());
    assert!(!present[0].is_worth_joining());
    assert!(present[4].is_worth_joining());
}

#[test]
fn joins_are_announced_on_in_order_and_once() {
    let mut interfaces = with_joined(&[4, 2, 4]);
    assert_eq!(interfaces.ifaces(), vec![on(4), on(2)]);
    interfaces.update(&present(&[2, 4, 9]), &[joined(2), joined(9)], &[]);
    assert_eq!(interfaces.ifaces(), vec![on(4), on(2), on(9)]);
}

#[test]
fn a_failed_join_is_not_announced_on_at_once() {
    let mut interfaces = with_joined(&[1]);
    let failed = Join { index: 2, outcome: JoinOutcome::Failed };
    let again = Join { index: 1, outcome: JoinOutcome::Failed };
    interfaces.update(&present(&[1, 2]), &[failed, again], &[]);
    assert_eq!(interfaces.ifaces(), vec![on(1)]);
    assert!(interfaces.knows(1));
    assert!(interfaces.knows(2));
    assert_eq!(interfaces.resync(), 1);
    assert_eq!(interfaces.ifaces(), vec![on(1), on(2)]);
}

#[test]
fn an_interface_without_an_ipv6_address_is_known() {
    let mut node = node();
    let listed = vec![Interface { index: 5, ipv6: vec![] }, Interface { index: 6, ipv6: vec![1] }];
    assert!(to_join(&listed).is_empty());
    node.update_interfaces(&listed, &[], &[]);
    assert!(node.knows(5));
    assert!(node.knows(6));
    assert!(node.ifaces().is_empty());
    assert_eq!(node.resync_ifaces(), 2);
}

#[test]
fn the_known_interfaces_are_the_last_listing() {
    let mut node = node();
    let mut earlier: Vec<u32> = Vec::new();
    for listed in [vec![1, 2, 3], vec![2, 3, 4], vec![], vec![4, 1], vec![1]] {
        let joins: Vec<Join> = listed
            .iter()
            .map(|&index| Join {
                index,
                outcome: if index % 2 == 0 { JoinOutcome::Failed } else { JoinOutcome::Joined },
            })
            .collect();
        let gone: Vec<u32> =
            earlier.iter().copied().filter(|index| !listed.contains(index)).collect();
        node.update_interfaces(&present(&listed), &joins, &gone);
        announce(&mut node, &[1, 3]);
        for index in 0..8 {
            assert_eq!(node.knows(index), listed.contains(&index));
        }
        node.resync_ifaces();
        let announced: HashSet<u32> = indices(&node.ifaces()).into_iter().collect();
        assert_eq!(announced, listed.iter().copied().collect());
        earlier = listed;
    }
}

#[test]
fn removed_interfaces_go_from_both_records() {
    let mut interfaces = with_joined(&[1, 2, 3]);
    interfaces.update(&present(&[1, 3]), &[joined(4)], &[2, 4, 77]);
    assert_eq!(interfaces.ifaces(), vec![on(1), on(3)]);
    assert!(interfaces.knows(1));
    assert!(!interfaces.knows(2));
    assert!(!interfaces.knows(4));
}

#[test]
fn a_removed_interface_is_not_resynced() {
    let mut interfaces = with_joined(&[1, 2]);
    interfaces.update(&present(&[1]), &[], &[2]);
    assert_eq!(interfaces.resync(), 0);
    assert_eq!(interfaces.ifaces(), vec![on(1)]);
}

#[test]
fn taking_out_moves_the_last_address() {
    let mut interfaces = with_joined(&[1, 2, 3, 4]);
    assert!(interfaces.take_out(on(2)));
    assert_eq!(interfaces.ifaces(), vec![on(1), on(4), on(3)]);
    assert!(interfaces.take_out(on(3)));
    assert_eq!(interfaces.ifaces(), vec![on(1), on(4)]);
    assert!(!interfaces.take_out(on(3)));
    assert!(!interfaces.take_out(SocketAddrV6 { port: 1, ..on(1) }));
    assert_eq!(interfaces.ifaces(), vec![on(1), on(4)]);
    assert!(interfaces.knows(2));
    assert!(interfaces.knows(3));
}

#[test]
fn resync_restores_what_was_taken_out() {
    let mut interfaces = with_joined(&[1, 2, 3, 4]);
    interfaces.take_out(on(1));
    interfaces.take_out(on(4));
    assert_eq!(interfaces.ifaces(), vec![on(3), on(2)]);
    assert_eq!(interfaces.resync(), 2);
    let after = interfaces.ifaces();
    assert_eq!(&after[..2], &[on(3), on(2)]);
    let set: HashSet<u32> = indices(&after).into_iter().collect();
    assert_eq!(set, HashSet::from([1, 2, 3, 4]));
    assert_eq!(after.len(), 4);
    assert_eq!(interfaces.resync(), 0);
    assert_eq!(interfaces.ifaces(), after);
}

#[test]
fn a_second_join_restores_what_was_taken_out() {
    let mut interfaces = with_joined(&[1, 2]);
    interfaces.take_out(on(1));
    let again = Join { index: 1, outcome: JoinOutcome::AlreadyJoined };
    interfaces.update(&present(&[1, 2]), &[again], &[]);
    assert_eq!(interfaces.ifaces(), vec![on(2), on(1)]);
}

#[test]
fn an_announcement_goes_from_the_last_to_the_first() {
    let mut node = node_with_joined(&[1, 2, 3]);
    assert_eq!(announce(&mut node, &[]), vec![3, 2, 1]);
    assert_eq!(node.ifaces(), vec![on(1), on(2), on(3)]);
}

#[test]
fn an_announcement_takes_out_the_unreachable() {
    for mask in 0..32u32 {
        let all = [10, 11, 12, 13, 14];
        let unreachable: Vec<u32> =
            all.iter().copied().filter(|index| mask >> (index - 10) & 1 == 1).collect();
        let mut node = node_with_joined(&all);
        assert_eq!(announce(&mut node, &unreachable), vec![14, 13, 12, 11, 10]);
        let left: HashSet<u32> = indices(&node.ifaces()).into_iter().collect();
        let expected: HashSet<u32> =
            all.iter().copied().filter(|index| !unreachable.contains(index)).collect();
        assert_eq!(left, expected);
        assert_eq!(node.ifaces().len(), expected.len());
        for index in all {
            assert!(node.knows(index));
        }
        assert_eq!(node.resync_ifaces(), unreachable.len());
    }
}

#[test]
fn an_interface_goes_while_a_send_is_pending() {
    let mut node = node_with_joined(&[1, 2, 3]);
    let mut announcement = node.announce_with([9; 8]);
    assert_eq!(announcement.target(), Some(on(3)));
    node.update_interfaces(&present(&[2, 3]), &[], &[1]);
    assert!(node.announce_sent(&mut announcement, SendOutcome::HostUnreachable));
    assert!(!node.announce_sent(&mut announcement, SendOutcome::Sent(20)));
    assert!(!node.announce_sent(&mut announcement, SendOutcome::Sent(20)));
    assert_eq!(node.ifaces(), vec![on(2)]);
}

#[test]
fn the_target_of_a_failed_send_goes_and_no_other() {
    let mut node = node_with_joined(&[1, 2, 3]);
    let mut announcement = node.announce_with([9; 8]);
    assert!(!node.announce_sent(&mut announcement, SendOutcome::Sent(20)));
    assert_eq!(announcement.target(), Some(on(2)));
    node.update_interfaces(&present(&[2, 3]), &[], &[1]);
    assert!(node.announce_sent(&mut announcement, SendOutcome::HostUnreachable));
    assert_eq!(node.ifaces(), vec![on(3)]);
    // The interface of the last target has gone, so there is nothing to take out.
    assert!(!node.announce_sent(&mut announcement, SendOutcome::HostUnreachable));
    assert_eq!(node.ifaces(), vec![on(3)]);
    assert!(announcement.target().is_none());
}

#[test]
fn a_removed_interface_stays_out_until_it_is_listed_again() {
    let mut node = node_with_joined(&[1, 2, 3]);
    node.update_interfaces(&present(&[1, 3]), &[joined(1)], &[2]);
    for unreachable in [vec![], vec![1], vec![1, 2, 3]] {
        announce(&mut node, &unreachable);
        assert!(!node.knows(2));
        assert!(!node.ifaces().contains(&on(2)));
        node.resync_ifaces();
        node.update_interfaces(&present(&[1, 3]), &[joined(3)], &[]);
        assert!(!node.knows(2));
        assert!(!node.ifaces().contains(&on(2)));
    }
    node.update_interfaces(&present(&[1, 2, 3]), &[], &[]);
    assert!(node.knows(2));
    assert_eq!(node.resync_ifaces(), 1);
    assert!(node.ifaces().contains(&on(2)));
}

#[test]
fn a_resync_heals_after_any_course() {
    let mut node = node_with_joined(&[1, 2]);
    announce(&mut node, &[1, 2]);
    node.update_interfaces(&present(&[1, 2, 3]), &[joined(3)], &[]);
    announce(&mut node, &[3]);
    node.update_interfaces(&present(&[1, 3]), &[], &[2]);
    assert!(node.ifaces().is_empty());
    node.resync_ifaces();
    announce(&mut node, &[3]);
    assert_eq!(node.ifaces(), vec![on(1)]);
}

#[test]
fn an_announcement_keeps_its_targets() {
    let mut node = node_with_joined(&[1, 2]);
    let mut announcement = node.announce_with([4; 8]);
    assert_eq!(announcement.targets(), &vec![on(1), on(2)]);
    node.announce_sent(&mut announcement, SendOutcome::HostUnreachable);
    assert_eq!(announcement.targets(), &vec![on(1), on(2)]);
}

#[test]
fn other_failures_take_nothing_out() {
    let mut node = node_with_joined(&[1, 2, 3]);
    let mut announcement = node.announce_with([3; 8]);
    assert_eq!(announcement.pending(), 3);
    assert!(!node.announce_sent(&mut announcement, SendOutcome::TimedOut));
    assert!(!node.announce_sent(&mut announcement, SendOutcome::Failed));
    assert!(!node.announce_sent(&mut announcement, SendOutcome::Sent(3)));
    assert_eq!(announcement.pending(), 0);
    assert!(announcement.target().is_none());
    assert_eq!(node.ifaces(), vec![on(1), on(2), on(3)]);
}

#[test]
fn an_event_resyncs() {
    let mut node = node_with_joined(&[1, 2]);
    announce(&mut node, &[1]);
    assert_eq!(node.ifaces(), vec![on(2)]);
    match node.next(Event::Resync, &[]) {
        Step::Resynced(restored) => assert_eq!(restored, 1),
        other => panic!("{other:?}"),
    }
    assert_eq!(node.ifaces(), vec![on(2), on(1)]);
}

#[test]
fn a_new_node_has_no_interfaces() {
    let node = node();
    assert!(node.ifaces().is_empty());
    assert!(!node.knows(0));
}
