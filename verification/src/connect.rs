//! The station connect attempt as a cooperatively polled future. The
//! driver reports progress only through asynchronous event callbacks; the
//! caller registers one handler per event kind on the first poll, feeds
//! each decoded event into the state machine here, and wakes the poller
//! when an event function says so. Exactly one registration set exists
//! per attempt, and it is taken down before the future resolves or when a
//! pending future is cancelled, so no callback can outlive its state.

use vstd::prelude::*;

use crate::radio::{ConnectionError, StaRunning, WifiError, WifiSta};
use crate::wifi::{AuthMode, EspError, IpInfo, Ssid, StaConfig};

verus! {

/// The phase a connection attempt is in.
pub enum ConnectState {
    /// Handlers not yet registered, or association still in progress.
    Starting,
    /// The attempt is over and failed.
    Failed(WifiError),
    /// The link is up but no address lease has arrived yet.
    ConnectedWithoutIp { ssid: Ssid, bssid: [u8; 6], channel: u8, auth_mode: AuthMode },
    /// The link is up and the lease arrived; the attempt succeeded.
    Connected { ip_info: IpInfo, ssid: Ssid, bssid: [u8; 6], channel: u8, auth_mode: AuthMode },
}

/// What the poller must do next.
#[derive(Clone, Copy, Debug, PartialEq, Eq, Structural)]
pub enum ConnectPoll {
    /// Register the four event handlers, then start the radio.
    Register,
    /// Suspend; an event callback will wake the poller.
    Pending,
    /// Take the four event handlers down, then resolve the future.
    Unregister,
}

/// A connection attempt in progress.
pub struct ConnectFuture {
    config: StaConfig,
    state: ConnectState,
    registered: bool,
}

impl WifiSta {
    /// Begin a connection attempt. The future starts unregistered; its
    /// first poll asks for registration.
    pub fn connect(self) -> (r: ConnectFuture)
        ensures
            r.spec_state() is Starting,
            !r.spec_registered(),
            r.spec_config() == self.config,
    {
        ConnectFuture { config: self.config, state: ConnectState::Starting, registered: false }
    }
}

impl ConnectFuture {
    /// The phase the attempt is in.
    pub closed spec fn spec_state(&self) -> ConnectState {
        self.state
    }

    /// Whether the event handlers are currently registered.
    pub closed spec fn spec_registered(&self) -> bool {
        self.registered
    }

    /// The station configuration this attempt uses.
    pub closed spec fn spec_config(&self) -> StaConfig {
        self.config
    }

    /// The station configuration this attempt uses.
    pub fn config(&self) -> (r: &StaConfig)
        ensures
            r == self.spec_config(),
    {
        &self.config
    }

    /// Decide one poll: register on the first poll, stay pending while
    /// events are outstanding, and unregister once the attempt reached a
    /// terminal phase.
    pub fn poll(&self) -> (r: ConnectPoll)
        ensures
            ((r == ConnectPoll::Register) == (self.spec_state() is Starting
                && !self.spec_registered())),
            ((r == ConnectPoll::Pending) == ((self.spec_state() is Starting
                && self.spec_registered()) || self.spec_state() is ConnectedWithoutIp)),
            ((r == ConnectPoll::Unregister) == (self.spec_state() is Failed || self.spec_state()
                is Connected)),
    {
        match &self.state {
            ConnectState::Starting => {
                if self.registered {
                    ConnectPoll::Pending
                } else {
                    ConnectPoll::Register
                }
            },
            ConnectState::ConnectedWithoutIp { .. } => ConnectPoll::Pending,
            ConnectState::Failed(_) => ConnectPoll::Unregister,
            ConnectState::Connected { .. } => ConnectPoll::Unregister,
        }
    }

    /// Whether the link is up with the lease still outstanding: the one
    /// state in which the lease event may arrive.
    pub fn awaiting_ip(&self) -> (r: bool)
        ensures
            r == (self.spec_state() is ConnectedWithoutIp),
    {
        matches!(self.state, ConnectState::ConnectedWithoutIp { .. })
    }

    /// Record that all four event handlers are registered.
    pub fn note_registered(&mut self)
        ensures
            final(self).spec_registered(),
            final(self).spec_state() == old(self).spec_state(),
            final(self).spec_config() == old(self).spec_config(),
    {
        self.registered = true;
    }

    /// Record that all four event handlers were taken down.
    pub fn note_unregistered(&mut self)
        ensures
            !final(self).spec_registered(),
            final(self).spec_state() == old(self).spec_state(),
            final(self).spec_config() == old(self).spec_config(),
    {
        self.registered = false;
    }

    /// Consume the outcome of starting the radio after registration: a
    /// synchronous failure ends the attempt at once, since no event will
    /// ever come.
    pub fn on_start_result(&mut self, result: Result<(), EspError>)
        ensures
            result is Ok ==> *final(self) == *old(self),
            (result matches Err(e) ==> (final(self).spec_state() == ConnectState::Failed(
                WifiError::Internal(e),
            ) && final(self).spec_registered() == old(self).spec_registered() && final(self).spec_config()
                == old(self).spec_config())),
    {
        if let Err(e) = result {
            self.state = ConnectState::Failed(WifiError::Internal(e));
        }
    }

    /// The radio-started event fired and the driver's own "begin
    /// association" call was made; consume its outcome. A synchronous
    /// failure ends the attempt and wakes the poller at once, since no
    /// disconnect event will ever come.
    pub fn on_sta_start(&mut self, connect_result: Result<(), EspError>) -> (wake: bool)
        ensures
            connect_result is Ok ==> (!wake && *final(self) == *old(self)),
            (connect_result matches Err(e) ==> (wake && final(self).spec_state()
                == ConnectState::Failed(WifiError::Internal(e)) && final(self).spec_registered()
                == old(self).spec_registered() && final(self).spec_config() == old(self).spec_config())),
    {
        match connect_result {
            Ok(_) => false,
            Err(e) => {
                self.state = ConnectState::Failed(WifiError::Internal(e));
                true
            },
        }
    }

    /// The link-associated event fired: the link is up, the lease is
    /// still outstanding, so the poller is not woken.
    pub fn on_sta_connected(&mut self, ssid: Ssid, bssid: [u8; 6], channel: u8, auth_mode: AuthMode) -> (wake:
        bool)
        ensures
            !wake,
            final(self).spec_state() == (ConnectState::ConnectedWithoutIp {
                ssid,
                bssid,
                channel,
                auth_mode,
            }),
            final(self).spec_registered() == old(self).spec_registered(),
            final(self).spec_config() == old(self).spec_config(),
    {
        self.state = ConnectState::ConnectedWithoutIp { ssid, bssid, channel, auth_mode };
        false
    }

    /// The link-lost event fired: the attempt is over with the remote
    /// side's reason, and the poller is woken.
    pub fn on_sta_disconnected(&mut self, ssid: Ssid, bssid: [u8; 6], reason: u16) -> (wake: bool)
        ensures
            wake,
            final(self).spec_state() == ConnectState::Failed(
                WifiError::ConnectionError(ConnectionError { ssid, bssid, reason }),
            ),
            final(self).spec_registered() == old(self).spec_registered(),
            final(self).spec_config() == old(self).spec_config(),
    {
        self.state = ConnectState::Failed(
            WifiError::ConnectionError(ConnectionError { ssid, bssid, reason }),
        );
        true
    }

    /// The lease event fired while the link was up: the attempt
    /// succeeded, and the poller is woken. The driver emits this event
    /// only after the link-associated event.
    pub fn on_got_ip(&mut self, ip_info: IpInfo) -> (wake: bool)
        requires
            old(self).spec_state() is ConnectedWithoutIp,
        ensures
            wake,
            (old(self).spec_state() matches ConnectState::ConnectedWithoutIp {
                ssid,
                bssid,
                channel,
                auth_mode,
            } ==> final(self).spec_state() == (ConnectState::Connected {
                ip_info,
                ssid,
                bssid,
                channel,
                auth_mode,
            })),
            final(self).spec_registered() == old(self).spec_registered(),
            final(self).spec_config() == old(self).spec_config(),
    {
        let state = core::mem::replace(&mut self.state, ConnectState::Starting);
        match state {
            ConnectState::ConnectedWithoutIp { ssid, bssid, channel, auth_mode } => {
                self.state = ConnectState::Connected { ip_info, ssid, bssid, channel, auth_mode };
            },
            _ => {
                proof {
                    assert(false);
                }
            },
        }
        true
    }

    /// Resolve a finished attempt, after its handlers were taken down:
    /// the running station on success, the classified failure otherwise.
    pub fn resolve(self) -> (r: Result<StaRunning, WifiError>)
        requires
            !self.spec_registered(),
            self.spec_state() is Failed || self.spec_state() is Connected,
        ensures
            (self.spec_state() matches ConnectState::Connected { ip_info, .. } ==> (
            r matches Ok(s) && s.ip_info == ip_info && s.config == self.spec_config())),
            (self.spec_state() matches ConnectState::Failed(e) ==> r == Err::<StaRunning,
                WifiError,
            >(e)),
    {
        match self.state {
            ConnectState::Connected { ip_info, .. } => {
                Ok(StaRunning { config: self.config, ip_info })
            },
            ConnectState::Failed(e) => Err(e),
            _ => {
                proof {
                    assert(false);
                }
                Err(WifiError::Internal(EspError { code: 0 }))
            },
        }
    }

    /// Drop a pending attempt. `true` says the caller must take the four
    /// event handlers down before the state is freed; after that, no
    /// registration of this attempt remains.
    pub fn cancel(self) -> (r: bool)
        ensures
            r == self.spec_registered(),
    {
        self.registered
    }
}

} // verus!
