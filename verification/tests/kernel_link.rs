use sentinel::kernel_link::{
    FocusSnapshot, KernelLink, LinkAction, LinkEvent, LinkState, OutboundQueue,
    OUTBOUND_CAPACITY,
};

fn snapshot(title: &str) -> FocusSnapshot {
    FocusSnapshot {
        window_title: title.to_string(),
        process_name: "editor.exe".to_string(),
        ui_tree_snapshot: None,
    }
}

#[test]
fn the_default_capacity_is_in_the_tens() {
    assert_eq!(OUTBOUND_CAPACITY, 32);
}

#[test]
fn the_queue_is_first_in_first_out() {
    let mut queue = OutboundQueue::new(8);
    for i in 0..5 {
        assert_eq!(queue.try_push(snapshot(&format!("w{}", i))), Ok(()));
    }
    assert_eq!(queue.len(), 5);
    for i in 0..5 {
        assert_eq!(queue.pop(), Some(snapshot(&format!("w{}", i))));
    }
    assert_eq!(queue.pop(), None);
    assert_eq!(queue.len(), 0);
}

#[test]
fn a_full_queue_hands_the_snapshot_back() {
    let mut queue = OutboundQueue::new(2);
    assert!(!queue.is_full());
    assert_eq!(queue.try_push(snapshot("a")), Ok(()));
    assert_eq!(queue.try_push(snapshot("b")), Ok(()));
    assert!(queue.is_full());
    assert_eq!(queue.try_push(snapshot("c")), Err(snapshot("c")));
    assert_eq!(queue.len(), 2);
    assert_eq!(queue.pop(), Some(snapshot("a")));
    assert!(!queue.is_full());
    assert_eq!(queue.try_push(snapshot("c")), Ok(()));
    assert_eq!(queue.pop(), Some(snapshot("b")));
    assert_eq!(queue.pop(), Some(snapshot("c")));
    assert_eq!(queue.pop(), None);
}

#[test]
fn a_queue_without_room_takes_nothing() {
    let mut queue = OutboundQueue::new(0);
    assert!(queue.is_full());
    assert_eq!(queue.try_push(snapshot("a")), Err(snapshot("a")));
    assert_eq!(queue.pop(), None);
}

#[test]
fn the_link_starts_by_connecting() {
    let mut link = KernelLink::new(2000);
    assert_eq!(link.state(), LinkState::Idle);
    assert!(!link.is_streaming());
    assert_eq!(link.step(LinkEvent::Start), LinkAction::Connect);
    assert_eq!(link.state(), LinkState::Connecting);
}

#[test]
fn failures_repeat_and_one_success_opens_the_streams_once() {
    for failures in [0usize, 1, 2, 7, 50] {
        let mut link = KernelLink::new(1500);
        link.step(LinkEvent::Start);
        let mut actions = Vec::new();
        for _ in 0..failures {
            actions.push(link.step(LinkEvent::ConnectFailed));
            assert_eq!(link.state(), LinkState::Connecting);
        }
        actions.push(link.step(LinkEvent::Connected));
        assert!(link.is_streaming());
        assert_eq!(actions.len(), failures + 1);
        assert!(actions[..failures].iter().all(|a| *a == LinkAction::Retry { delay_ms: 1500 }));
        assert_eq!(actions.iter().filter(|a| **a == LinkAction::OpenStreams).count(), 1);
        assert_eq!(actions[failures], LinkAction::OpenStreams);
    }
}

#[test]
fn the_loss_of_either_stream_reconnects_both() {
    for loss in [LinkEvent::OutboundClosed, LinkEvent::InboundEnded, LinkEvent::TransportError] {
        let mut link = KernelLink::new(10);
        link.step(LinkEvent::Start);
        link.step(LinkEvent::Connected);
        assert_eq!(link.step(loss), LinkAction::Reconnect);
        assert_eq!(link.state(), LinkState::Connecting);
        assert_eq!(link.step(LinkEvent::ConnectFailed), LinkAction::Retry { delay_ms: 10 });
        assert_eq!(link.step(LinkEvent::Connected), LinkAction::OpenStreams);
        assert!(link.is_streaming());
    }
}

#[test]
fn events_out_of_place_are_ignored() {
    let mut idle = KernelLink::new(10);
    for event in [
        LinkEvent::ConnectFailed,
        LinkEvent::Connected,
        LinkEvent::OutboundClosed,
        LinkEvent::InboundEnded,
        LinkEvent::TransportError,
    ] {
        assert_eq!(idle.step(event), LinkAction::Ignore);
        assert_eq!(idle.state(), LinkState::Idle);
    }
    let mut connecting = KernelLink::new(10);
    connecting.step(LinkEvent::Start);
    for event in [
        LinkEvent::Start,
        LinkEvent::OutboundClosed,
        LinkEvent::InboundEnded,
        LinkEvent::TransportError,
    ] {
        assert_eq!(connecting.step(event), LinkAction::Ignore);
        assert_eq!(connecting.state(), LinkState::Connecting);
    }
    let mut streaming = KernelLink::new(10);
    streaming.step(LinkEvent::Start);
    streaming.step(LinkEvent::Connected);
    for event in [LinkEvent::Start, LinkEvent::ConnectFailed, LinkEvent::Connected] {
        assert_eq!(streaming.step(event), LinkAction::Ignore);
        assert_eq!(streaming.state(), LinkState::Streaming);
    }
}
