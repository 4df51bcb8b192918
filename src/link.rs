//! The connection lifecycle of the serial link.
//!
//! One `LinkManager` owns every transition of the connection state, so the
//! connect loop and the presence watchdog cannot race: each reports what it
//! observed as a `LinkEvent`, and the manager answers with the `LinkAction`
//! the caller performs on the transport. Only an opened port moves the link to
//! `Connected`; only a lost device (or shutdown) moves it back.
use vstd::prelude::*;

use crate::device::MCUData;

verus! {

/// Where the connection stands.
#[derive(Clone, Copy, Debug, PartialEq, Eq, Structural)]
pub enum LinkState {
    Disconnected,
    Connecting,
    Connected,
}

/// What the connect loop, the watchdog or the protocol observed.
#[derive(Clone, Copy, Debug, PartialEq, Eq, Structural)]
pub enum LinkEvent {
    /// A connection is wanted.
    ConnectRequested,
    /// The port was opened; the caller holds the new transport.
    OpenSucceeded,
    /// Opening the port failed.
    OpenFailed,
    /// The watchdog found the port path present.
    PathPresent,
    /// The watchdog found the port path missing.
    PathMissing,
    /// The watchdog could not tell whether the path exists.
    CheckFailed,
    /// A read or write on the transport failed.
    IoError,
    /// The process is shutting down.
    Shutdown,
}

/// What the caller does with the transport after an event.
#[derive(Clone, Copy, Debug, PartialEq, Eq, Structural)]
pub enum LinkAction {
    /// Try to open the configured port.
    OpenPort,
    /// Wait one second, then try to open the port again.
    RetryAfterDelay,
    /// Keep the transport just opened.
    KeepHandles,
    /// Drop both halves of the transport held for the link.
    Release,
    /// Close the port just opened; the transport held for the link, if any,
    /// stays as it is.
    DropOpened,
    /// Nothing to do.
    Nothing,
}

/// The state and stop flag that follow `(st, stopped)` on `ev`.
pub open spec fn link_next(st: LinkState, stopped: bool, ev: LinkEvent) -> (LinkState, bool) {
    if stopped {
        (LinkState::Disconnected, true)
    } else {
        match ev {
            LinkEvent::Shutdown => (LinkState::Disconnected, true),
            LinkEvent::ConnectRequested | LinkEvent::PathPresent =>
                if st == LinkState::Disconnected { (LinkState::Connecting, false) } else { (st, false) },
            LinkEvent::OpenSucceeded =>
                if st == LinkState::Connecting { (LinkState::Connected, false) } else { (st, false) },
            LinkEvent::OpenFailed => (st, false),
            LinkEvent::PathMissing | LinkEvent::CheckFailed | LinkEvent::IoError =>
                if st == LinkState::Connected { (LinkState::Disconnected, false) } else { (st, false) },
        }
    }
}

/// The action that goes with the transition from `(st, stopped)` on `ev`.
pub open spec fn link_action(st: LinkState, stopped: bool, ev: LinkEvent) -> LinkAction {
    if stopped {
        if ev == LinkEvent::OpenSucceeded { LinkAction::DropOpened } else { LinkAction::Nothing }
    } else {
        match ev {
            LinkEvent::Shutdown =>
                if st == LinkState::Connected { LinkAction::Release } else { LinkAction::Nothing },
            LinkEvent::ConnectRequested | LinkEvent::PathPresent =>
                if st == LinkState::Disconnected { LinkAction::OpenPort } else { LinkAction::Nothing },
            LinkEvent::OpenSucceeded =>
                if st == LinkState::Connecting { LinkAction::KeepHandles } else { LinkAction::DropOpened },
            LinkEvent::OpenFailed =>
                if st == LinkState::Connecting { LinkAction::RetryAfterDelay } else { LinkAction::Nothing },
            LinkEvent::PathMissing | LinkEvent::CheckFailed | LinkEvent::IoError =>
                if st == LinkState::Connected { LinkAction::Release } else { LinkAction::Nothing },
        }
    }
}

/// The state and stop flag after the events `evs`, in order.
pub open spec fn link_run(st: LinkState, stopped: bool, evs: Seq<LinkEvent>) -> (LinkState, bool)
    decreases evs.len(),
{
    if evs.len() == 0 {
        (st, stopped)
    } else {
        let n = link_next(st, stopped, evs[0]);
        link_run(n.0, n.1, evs.drop_first())
    }
}

/// A port that never opens is never connected: from any state but
/// `Connected`, no run of events without `OpenSucceeded` reaches `Connected`.
pub proof fn lemma_never_connected_without_open(st: LinkState, stopped: bool, evs: Seq<LinkEvent>)
    requires
        st != LinkState::Connected,
        forall|i: int| 0 <= i < evs.len() ==> evs[i] != LinkEvent::OpenSucceeded,
    ensures
        link_run(st, stopped, evs).0 != LinkState::Connected,
    decreases evs.len(),
{
    if evs.len() > 0 {
        let rest = evs.drop_first();
        assert forall|i: int| 0 <= i < rest.len() implies rest[i] != LinkEvent::OpenSucceeded by {
            assert(rest[i] == evs[i + 1]);
        }
        let n = link_next(st, stopped, evs[0]);
        lemma_never_connected_without_open(n.0, n.1, rest);
    }
}

/// When the watchdog finds the path missing (or cannot check it) while the
/// link is connected, the link becomes disconnected and the transport is
/// released in that same step.
pub proof fn lemma_watchdog_releases(stopped: bool, ev: LinkEvent)
    requires
        ev == LinkEvent::PathMissing || ev == LinkEvent::CheckFailed,
    ensures
        link_next(LinkState::Connected, stopped, ev).0 == LinkState::Disconnected,
        !stopped ==> link_action(LinkState::Connected, stopped, ev) == LinkAction::Release,
{
}

/// The single owner of the connection state and of the device record.
pub struct LinkManager {
    device: MCUData,
    state: LinkState,
    stopped: bool,
}

impl LinkManager {
    pub closed spec fn spec_state(&self) -> LinkState {
        self.state
    }

    pub closed spec fn spec_stopped(&self) -> bool {
        self.stopped
    }

    pub closed spec fn spec_device(&self) -> MCUData {
        self.device
    }

    /// The device record says connected exactly when the link is; a stopped
    /// link is disconnected.
    pub open spec fn wf(&self) -> bool {
        &&& self.spec_device().is_active == (self.spec_state() == LinkState::Connected)
        &&& self.spec_stopped() ==> self.spec_state() == LinkState::Disconnected
    }

    /// A disconnected link for `device`.
    pub fn new(device: MCUData) -> (r: Self)
        ensures
            r.wf(),
            r.spec_state() == LinkState::Disconnected,
            !r.spec_stopped(),
            r.spec_device().name@ == device.name@,
            r.spec_device().temperature == device.temperature,
    {
        let mut device = device;
        device.set_connected(false);
        LinkManager { device, state: LinkState::Disconnected, stopped: false }
    }

    pub fn state(&self) -> (r: LinkState)
        ensures
            r == self.spec_state(),
    {
        self.state
    }

    pub fn is_connected(&self) -> (r: bool)
        ensures
            r == (self.spec_state() == LinkState::Connected),
    {
        self.state == LinkState::Connected
    }

    pub fn is_stopped(&self) -> (r: bool)
        ensures
            r == self.spec_stopped(),
    {
        self.stopped
    }

    /// The configured port path.
    pub fn port_path(&self) -> (r: &String)
        ensures
            r@ == self.spec_device().name@,
    {
        &self.device.name
    }

    /// A consistent copy of the device record.
    pub fn snapshot(&self) -> (r: MCUData)
        ensures
            r.name@ == self.spec_device().name@,
            r.is_active == self.spec_device().is_active,
            r.temperature == self.spec_device().temperature,
    {
        MCUData { name: self.device.name.clone(), is_active: self.device.is_active, temperature: self.device.temperature }
    }

    /// Records a telemetry byte reported by the device.
    pub fn set_telemetry(&mut self, temperature: u8)
        requires
            old(self).wf(),
        ensures
            final(self).wf(),
            final(self).spec_state() == old(self).spec_state(),
            final(self).spec_stopped() == old(self).spec_stopped(),
            final(self).spec_device().temperature == temperature,
            final(self).spec_device().name@ == old(self).spec_device().name@,
    {
        self.device.set_telemetry(temperature);
    }

    /// Applies one observation and says what to do with the transport.
    pub fn handle(&mut self, ev: LinkEvent) -> (r: LinkAction)
        requires
            old(self).wf(),
        ensures
            final(self).wf(),
            (final(self).spec_state(), final(self).spec_stopped())
                == link_next(old(self).spec_state(), old(self).spec_stopped(), ev),
            r == link_action(old(self).spec_state(), old(self).spec_stopped(), ev),
            final(self).spec_device().name@ == old(self).spec_device().name@,
            final(self).spec_device().temperature == old(self).spec_device().temperature,
    {
        let st = self.state;
        let (next, action) = if self.stopped {
            if ev == LinkEvent::OpenSucceeded {
                (LinkState::Disconnected, LinkAction::DropOpened)
            } else {
                (LinkState::Disconnected, LinkAction::Nothing)
            }
        } else {
            match ev {
                LinkEvent::Shutdown => {
                    self.stopped = true;
                    if st == LinkState::Connected {
                        (LinkState::Disconnected, LinkAction::Release)
                    } else {
                        (LinkState::Disconnected, LinkAction::Nothing)
                    }
                },
                LinkEvent::ConnectRequested | LinkEvent::PathPresent => {
                    if st == LinkState::Disconnected {
                        (LinkState::Connecting, LinkAction::OpenPort)
                    } else {
                        (st, LinkAction::Nothing)
                    }
                },
                LinkEvent::OpenSucceeded => {
                    if st == LinkState::Connecting {
                        (LinkState::Connected, LinkAction::KeepHandles)
                    } else {
                        (st, LinkAction::DropOpened)
                    }
                },
                LinkEvent::OpenFailed => {
                    if st == LinkState::Connecting {
                        (st, LinkAction::RetryAfterDelay)
                    } else {
                        (st, LinkAction::Nothing)
                    }
                },
                LinkEvent::PathMissing | LinkEvent::CheckFailed | LinkEvent::IoError => {
                    if st == LinkState::Connected {
                        (LinkState::Disconnected, LinkAction::Release)
                    } else {
                        (st, LinkAction::Nothing)
                    }
                },
            }
        };
        self.state = next;
        self.device.set_connected(next == LinkState::Connected);
        action
    }
}

} // verus!
