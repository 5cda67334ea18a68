//! The radio bring-up state machine. Ownership of the one physical radio
//! is a single-slot token; the typed handles make "start an access point"
//! and "connect as a station" reachable only from the matching
//! configured state, so an illegal transition does not compile. Driver
//! calls happen outside this library; each transition consumes the
//! driver's outcome and advances only when it succeeded.

use vstd::prelude::*;

use crate::wifi::{ApConfig, EspError, IpInfo, StaConfig};

verus! {

/// The process-wide single slot from which the one radio is taken.
/// Holding a `Wifi` handle is holding the radio.
pub struct RadioSlot {
    taken: bool,
}

/// The error of a radio operation: an internal driver error, or the
/// remote side's disconnect reason.
pub enum WifiError {
    /// A native error from a driver call.
    Internal(EspError),
    /// The connection attempt was refused or dropped by the network.
    ConnectionError(ConnectionError),
}

/// What a failed connection attempt reported.
pub struct ConnectionError {
    pub ssid: crate::wifi::Ssid,
    pub bssid: [u8; 6],
    pub reason: u16,
}

impl RadioSlot {
    pub closed spec fn spec_occupied(self) -> bool {
        self.taken
    }

    /// A slot with the radio available.
    pub fn new() -> (r: RadioSlot)
        ensures
            !r.spec_occupied(),
    {
        RadioSlot { taken: false }
    }

    /// Take exclusive ownership of the radio. `None` while another handle
    /// is still held; after that handle is released, taking succeeds
    /// again.
    pub fn take(&mut self) -> (r: Option<Wifi>)
        ensures
            (r is Some) == !old(self).spec_occupied(),
            final(self).spec_occupied(),
    {
        if self.taken {
            None
        } else {
            self.taken = true;
            Some(Wifi { token: () })
        }
    }

    /// Release the radio, making it available to `take` again.
    pub fn release(&mut self, radio: Wifi)
        ensures
            !final(self).spec_occupied(),
    {
        let _ = radio;
        self.taken = false;
    }
}

/// The radio with no active role: initialized, not configured, not
/// started. The only ways to hold one are `RadioSlot::take` and the
/// give-back paths of failed or stopped sessions.
pub struct Wifi {
    token: (),
}

impl Wifi {
    /// Apply an access-point configuration. `driver` is the outcome of
    /// pushing mode and configuration to the driver; on failure the
    /// unconfigured handle comes back with the error, and the state does
    /// not advance.
    pub fn into_ap(self, config: ApConfig, driver: Result<(), EspError>) -> (r: Result<
        WifiAp,
        (Wifi, WifiError),
    >)
        ensures
            (r is Ok) == (driver is Ok),
            driver is Ok ==> (r matches Ok(ap) && ap.config == config),
            (driver matches Err(e) ==> (r matches Err(p) && p.1 == WifiError::Internal(e))),
    {
        match driver {
            Ok(_) => Ok(WifiAp { config }),
            Err(e) => Err((self, WifiError::Internal(e))),
        }
    }

    /// Apply a station configuration. `driver` is the outcome of pushing
    /// mode and configuration to the driver; on failure the unconfigured
    /// handle comes back with the error, and the state does not advance.
    pub fn into_sta(self, config: StaConfig, driver: Result<(), EspError>) -> (r: Result<
        WifiSta,
        (Wifi, WifiError),
    >)
        ensures
            (r is Ok) == (driver is Ok),
            driver is Ok ==> (r matches Ok(sta) && sta.config == config),
            (driver matches Err(e) ==> (r matches Err(p) && p.1 == WifiError::Internal(e))),
    {
        match driver {
            Ok(_) => Ok(WifiSta { config }),
            Err(e) => Err((self, WifiError::Internal(e))),
        }
    }
}

/// The radio configured as an access point but not yet started.
pub struct WifiAp {
    pub config: ApConfig,
}

impl WifiAp {
    /// Start the access point. `driver` is the outcome of starting the
    /// radio; on failure the configured handle comes back with the error.
    pub fn start(self, driver: Result<(), EspError>) -> (r: Result<ApRunning, (WifiAp, WifiError)>)
        ensures
            (r is Ok) == (driver is Ok),
            driver is Ok ==> (r matches Ok(ap) && ap.config == self.config),
            (driver matches Err(e) ==> (r matches Err(p) && p.0.config == self.config && p.1
                == WifiError::Internal(e))),
    {
        match driver {
            Ok(_) => Ok(ApRunning { config: self.config }),
            Err(e) => Err((WifiAp { config: self.config }, WifiError::Internal(e))),
        }
    }
}

/// The radio configured as a station but not yet connecting. Only this
/// state offers `connect`, so connecting from any other role is a
/// compile-time error.
pub struct WifiSta {
    pub config: StaConfig,
}

/// The access point is on the air. Stopping yields the idle handle back.
pub struct ApRunning {
    pub config: ApConfig,
}

impl ApRunning {
    /// Stop the access point; the caller stops the radio and gets the
    /// configuration and the idle handle back.
    pub fn stop(self) -> (r: (ApConfig, Wifi))
        ensures
            r.0 == self.config,
    {
        (self.config, Wifi { token: () })
    }
}

/// The station is connected and holds a lease. Stopping yields the idle
/// handle back.
pub struct StaRunning {
    pub config: StaConfig,
    pub ip_info: IpInfo,
}

impl StaRunning {
    /// The lease the station obtained.
    pub fn ip_info(&self) -> (r: &IpInfo)
        ensures
            r == &self.ip_info,
    {
        &self.ip_info
    }

    /// Stop the station; the caller stops the radio and gets the
    /// configuration and the idle handle back.
    pub fn stop(self) -> (r: (StaConfig, Wifi))
        ensures
            r.0 == self.config,
    {
        (self.config, Wifi { token: () })
    }
}

/// A radio in one of its two running roles.
pub enum WifiRunning {
    Sta(StaRunning),
    Ap(ApRunning),
}

impl WifiError {
    /// A failed attempt hands the radio back: the idle handle to retry
    /// with, typically by starting the access point instead.
    pub fn wifi(self) -> (r: Wifi) {
        let _ = self;
        Wifi { token: () }
    }
}

} // verus!
