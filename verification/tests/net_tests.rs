use splitflap::net::{
    link_next, link_start, poll_station_address, AddressPoll, LinkAction, LinkEvent, LinkState,
    ADDRESS_POLL_INTERVAL_MS, RECONNECT_DELAY_MS,
};

#[test]
fn link_starts_by_connecting() {
    assert_eq!(link_start(), (LinkState::Connecting, LinkAction::Connect));
}

#[test]
fn link_connect_outcomes() {
    assert_eq!(
        link_next(LinkState::Connecting, LinkEvent::ConnectSucceeded),
        (LinkState::Connected, LinkAction::AwaitEvents)
    );
    assert_eq!(
        link_next(LinkState::Connecting, LinkEvent::ConnectFailed),
        (LinkState::Connecting, LinkAction::ConnectAfterMs(5000))
    );
    assert_eq!(RECONNECT_DELAY_MS, 5000);
}

#[test]
fn link_reconnects_when_the_station_drops() {
    assert_eq!(
        link_next(LinkState::Connected, LinkEvent::StationDisconnected),
        (LinkState::Connecting, LinkAction::Connect)
    );
}

#[test]
fn link_other_reports_keep_waiting() {
    for e in [
        LinkEvent::StationWaitFailed,
        LinkEvent::ClientConnected,
        LinkEvent::ClientDisconnected,
        LinkEvent::ClientWaitFailed,
    ] {
        assert_eq!(
            link_next(LinkState::Connected, e),
            (LinkState::Connected, LinkAction::AwaitEvents)
        );
    }
}

#[test]
fn station_address_poll() {
    assert!(matches!(
        poll_station_address(Some([192, 168, 1, 20])),
        AddressPoll::Ready([192, 168, 1, 20])
    ));
    assert!(matches!(
        poll_station_address(None),
        AddressPoll::RetryAfterMs(500)
    ));
    assert_eq!(ADDRESS_POLL_INTERVAL_MS, 500);
}
