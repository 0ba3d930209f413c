use std::cell::RefCell;

use pipa_collector::raw_perf_events::{
    create_event_group_with, GroupOpener, OpenRequest, PerfEvent,
};
use pipa_collector::system_stats::PipaCollectorError;

#[test]
fn test_to_config_cycles() {
    let (event_type, config) = PerfEvent::Cycles.to_config();
    assert_eq!(event_type, 0);
    assert_eq!(config, 0);
}

#[test]
fn test_to_config_instructions() {
    let (event_type, config) = PerfEvent::Instructions.to_config();
    assert_eq!(event_type, 0);
    assert_eq!(config, 1);
}

#[test]
fn test_empty_group_is_rejected_before_any_open() {
    let opens = RefCell::new(0u32);
    let closes = RefCell::new(0u32);
    let result = create_event_group_with(
        &[],
        |_req: OpenRequest| {
            *opens.borrow_mut() += 1;
            100
        },
        |_fd: i32| {
            *closes.borrow_mut() += 1;
        },
    );
    match result {
        Err(PipaCollectorError::InvalidFormat(m)) => {
            assert_eq!(m, "Cannot create an event group with no events.");
        }
        other => panic!("expected the invalid-configuration error, got {:?}", other.is_ok()),
    }
    assert_eq!(*opens.borrow(), 0);
    assert_eq!(*closes.borrow(), 0);
}

#[test]
fn test_two_member_group_leader_and_follower_requests() {
    let requests: RefCell<Vec<OpenRequest>> = RefCell::new(Vec::new());
    let result = create_event_group_with(
        &[PerfEvent::Cycles, PerfEvent::Instructions],
        |req: OpenRequest| {
            let mut rs = requests.borrow_mut();
            rs.push(req);
            100 + rs.len() as i32 - 1
        },
        |_fd: i32| {},
    );
    let mut group = result.unwrap();
    assert_eq!(group.member_count(), 2);
    assert_eq!(group.leader_fd(), 100);

    let rs = requests.borrow();
    assert_eq!(rs.len(), 2);

    // The leader's record carries the cycles encoding and the group-wide
    // configuration, and leads a new group.
    assert_eq!(rs[0].attr.event_type, 0);
    assert_eq!(rs[0].attr.config, 0);
    assert!(rs[0].attr.disabled);
    assert!(rs[0].attr.inherit);
    assert_eq!(rs[0].attr.read_format, 12);
    assert_eq!(rs[0].pid, 0);
    assert_eq!(rs[0].cpu, -1);
    assert_eq!(rs[0].group_fd, -1);
    assert_eq!(rs[0].flags, 0);

    // The follower's record carries the instructions encoding, none of the
    // group-wide settings, and joins the leader's descriptor.
    assert_eq!(rs[1].attr.event_type, 0);
    assert_eq!(rs[1].attr.config, 1);
    assert!(!rs[1].attr.disabled);
    assert!(!rs[1].attr.inherit);
    assert_eq!(rs[1].attr.read_format, 0);
    assert_eq!(rs[1].pid, 0);
    assert_eq!(rs[1].cpu, -1);
    assert_eq!(rs[1].group_fd, 100);
    assert_eq!(rs[1].flags, 0);

    let released = group.release();
    assert_eq!(released, vec![100, 101]);
}

#[test]
fn test_failure_on_second_member_closes_first_exactly_once() {
    let closed: RefCell<Vec<i32>> = RefCell::new(Vec::new());
    let opens = RefCell::new(0u32);
    let result = create_event_group_with(
        &[PerfEvent::Cycles, PerfEvent::Instructions],
        |_req: OpenRequest| {
            let mut n = opens.borrow_mut();
            *n += 1;
            if *n == 1 {
                100
            } else {
                -1
            }
        },
        |fd: i32| closed.borrow_mut().push(fd),
    );
    assert!(matches!(result, Err(PipaCollectorError::Io(_))));
    assert_eq!(*opens.borrow(), 2);
    assert_eq!(*closed.borrow(), vec![100]);
}

#[test]
fn test_failure_on_third_member_closes_first_two() {
    let closed: RefCell<Vec<i32>> = RefCell::new(Vec::new());
    let opens = RefCell::new(0u32);
    let result = create_event_group_with(
        &[PerfEvent::Cycles, PerfEvent::Instructions, PerfEvent::Cycles],
        |_req: OpenRequest| {
            let mut n = opens.borrow_mut();
            *n += 1;
            if *n < 3 {
                10 + *n as i32
            } else {
                -1
            }
        },
        |fd: i32| closed.borrow_mut().push(fd),
    );
    assert!(result.is_err());
    assert_eq!(*closed.borrow(), vec![11, 12]);
}

#[test]
fn test_release_hands_back_each_descriptor_once() {
    let mut group = create_event_group_with(
        &[PerfEvent::Cycles, PerfEvent::Instructions],
        |_req: OpenRequest| 7,
        |_fd: i32| {},
    )
    .unwrap();
    assert_eq!(group.release(), vec![7, 7]);
    // The group is empty afterwards: releasing again hands back nothing.
    assert_eq!(group.release(), Vec::<i32>::new());
    assert_eq!(group.member_count(), 0);
}

#[test]
fn test_single_member_group_release() {
    let mut group =
        create_event_group_with(&[PerfEvent::Cycles], |_req: OpenRequest| 42, |_fd: i32| {})
            .unwrap();
    assert_eq!(group.member_count(), 1);
    assert_eq!(group.leader_fd(), 42);
    assert_eq!(group.release(), vec![42]);
}

#[test]
fn test_opener_steps_through_requests() {
    let mut opener =
        GroupOpener::new(&[PerfEvent::Instructions, PerfEvent::Cycles]).unwrap();
    assert_eq!(opener.event_count(), 2);
    assert_eq!(opener.opened_count(), 0);

    let first = opener.next_request();
    assert_eq!(first.attr.config, 1);
    assert!(first.attr.disabled);
    assert_eq!(first.group_fd, -1);
    opener.push_fd(5);

    let second = opener.next_request();
    assert_eq!(second.attr.config, 0);
    assert!(!second.attr.disabled);
    assert_eq!(second.group_fd, 5);
    opener.push_fd(6);

    assert_eq!(opener.opened_count(), 2);
    let group = opener.into_group();
    assert_eq!(group.leader_fd(), 5);
}

#[test]
fn test_opener_cancel_returns_collected_descriptors() {
    let mut opener = GroupOpener::new(&[PerfEvent::Cycles, PerfEvent::Instructions]).unwrap();
    let _ = opener.next_request();
    opener.push_fd(31);
    let fds = opener.cancel();
    assert_eq!(fds, vec![31]);
}

#[test]
fn test_opener_rejects_empty_list() {
    let result = GroupOpener::new(&[]);
    match result {
        Err(PipaCollectorError::InvalidFormat(m)) => {
            assert_eq!(m, "Cannot create an event group with no events.");
        }
        _ => panic!("an empty event list must be rejected"),
    }
}
