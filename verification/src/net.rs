//! Decisions of the network tasks: keeping the Wi-Fi station connected and waiting for
//! its address.
use vstd::prelude::*;

verus! {

/// Milliseconds to wait after a failed connection attempt before the next one.
pub const RECONNECT_DELAY_MS: u64 = 5000;

/// Milliseconds between two looks at the station's address while it has none.
pub const ADDRESS_POLL_INTERVAL_MS: u64 = 500;

/// Where the task that keeps the station connected stands.
#[derive(Clone, Copy, Debug, PartialEq, Eq, Structural)]
pub enum LinkState {
    /// A connection attempt is under way.
    Connecting,
    /// The station is connected; the task waits for what the radio reports.
    Connected,
}

/// What the radio reported to the task.
#[derive(Clone, Copy, Debug, PartialEq, Eq, Structural)]
pub enum LinkEvent {
    /// The connection attempt succeeded.
    ConnectSucceeded,
    /// The connection attempt failed.
    ConnectFailed,
    /// The station lost its access point.
    StationDisconnected,
    /// Waiting for the station to lose its access point failed.
    StationWaitFailed,
    /// A client joined the device's own access point.
    ClientConnected,
    /// A client left the device's own access point.
    ClientDisconnected,
    /// Waiting for a client of the device's own access point failed.
    ClientWaitFailed,
}

/// What the task does next.
#[derive(Clone, Copy, Debug, PartialEq, Eq, Structural)]
pub enum LinkAction {
    /// Start a connection attempt.
    Connect,
    /// Wait, at once, for the station to lose its access point and for a client of the
    /// device's own access point to come or go; report whichever happens first.
    AwaitEvents,
    /// Wait this many milliseconds, then start a connection attempt.
    ConnectAfterMs(u64),
}

/// The event can be reported in the state: a connection attempt ends in success or
/// failure, a connected station reports the rest.
pub open spec fn link_event_fits(state: LinkState, event: LinkEvent) -> bool {
    match state {
        LinkState::Connecting => event is ConnectSucceeded || event is ConnectFailed,
        LinkState::Connected => !(event is ConnectSucceeded || event is ConnectFailed),
    }
}

/// The state the task starts in, with the action it starts with.
pub fn link_start() -> (start: (LinkState, LinkAction))
    ensures
        start == (LinkState::Connecting, LinkAction::Connect),
{
    (LinkState::Connecting, LinkAction::Connect)
}

/// The next state and action of the task that keeps the station connected.
///
/// A successful attempt leads to waiting for events; a failed one is retried after
/// `RECONNECT_DELAY_MS`. When the station loses its access point a new attempt starts
/// at once; every other report leaves the station connected and waiting.
pub fn link_next(state: LinkState, event: LinkEvent) -> (next: (LinkState, LinkAction))
    requires
        link_event_fits(state, event),
    ensures
        event is ConnectSucceeded ==> next == (LinkState::Connected, LinkAction::AwaitEvents),
        event is ConnectFailed ==> next == (
            LinkState::Connecting,
            LinkAction::ConnectAfterMs(RECONNECT_DELAY_MS),
        ),
        event is StationDisconnected ==> next == (LinkState::Connecting, LinkAction::Connect),
        (event is StationWaitFailed || event is ClientConnected || event is ClientDisconnected
            || event is ClientWaitFailed) ==> next == (
            LinkState::Connected,
            LinkAction::AwaitEvents,
        ),
{
    match event {
        LinkEvent::ConnectSucceeded => (LinkState::Connected, LinkAction::AwaitEvents),
        LinkEvent::ConnectFailed => (
            LinkState::Connecting,
            LinkAction::ConnectAfterMs(RECONNECT_DELAY_MS),
        ),
        LinkEvent::StationDisconnected => (LinkState::Connecting, LinkAction::Connect),
        LinkEvent::StationWaitFailed => (LinkState::Connected, LinkAction::AwaitEvents),
        LinkEvent::ClientConnected => (LinkState::Connected, LinkAction::AwaitEvents),
        LinkEvent::ClientDisconnected => (LinkState::Connected, LinkAction::AwaitEvents),
        LinkEvent::ClientWaitFailed => (LinkState::Connected, LinkAction::AwaitEvents),
    }
}

/// What the task that waits for the station's address does next.
#[derive(Clone, Copy, Debug)]
pub enum AddressPoll {
    /// The station has this address; the wait is over.
    Ready([u8; 4]),
    /// The station has no address yet: look again after this many milliseconds.
    RetryAfterMs(u64),
}

/// Decides, from the station's current IPv4 configuration, whether its address is known.
pub fn poll_station_address(address: Option<[u8; 4]>) -> (next: AddressPoll)
    ensures
        match address {
            Some(a) => next == AddressPoll::Ready(a),
            None => next == AddressPoll::RetryAfterMs(ADDRESS_POLL_INTERVAL_MS),
        },
{
    match address {
        Some(a) => AddressPoll::Ready(a),
        None => AddressPoll::RetryAfterMs(ADDRESS_POLL_INTERVAL_MS),
    }
}

} // verus!
