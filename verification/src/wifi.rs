//! WiFi configuration values: SSIDs and passwords with their validation
//! rules, access-point and station configurations with their builders,
//! and the driver error type.

use vstd::prelude::*;

verus! {

/// A native driver error code.
#[derive(Clone, Copy, Debug, PartialEq, Eq, Structural)]
pub struct EspError {
    pub code: i32,
}

/// A WiFi authentication mode.
#[derive(Clone, Copy, Debug, PartialEq, Eq, Structural)]
pub enum AuthMode {
    Open,
    Wep,
    WpaPsk,
    WpaWpa2Psk,
    Wpa2Psk,
    Wpa3Psk,
    Wpa2Enterprise,
    Max,
}

/// Why a byte sequence was refused as an SSID or password.
#[derive(Clone, Copy, Debug, PartialEq, Eq, Structural)]
pub enum WifiConfigError {
    /// The bytes hold a NUL byte, at this position.
    InteriorNul(usize),
    /// The bytes exceed the field's limit: (the limit, the length given).
    TooLong(usize, usize),
    /// The bytes are not valid UTF-8.
    Utf8Error,
}

/// Whether a byte sequence is valid UTF-8, as `str::from_utf8` decides it.
pub uninterp spec fn is_utf8(bytes: Seq<u8>) -> bool;

/// Relies on str::from_utf8: it accepts exactly the valid UTF-8 byte
/// sequences, a function of the bytes alone.
#[verifier::external_body]
fn utf8_ok(bytes: &[u8]) -> (r: bool)
    ensures
        r == is_utf8(bytes@),
{
    core::str::from_utf8(bytes).is_ok()
}

/// Relies on memchr::memchr: it returns the index of the first occurrence
/// of `needle` in `haystack`, or `None` when the byte does not occur.
pub assume_specification [ memchr::memchr ](needle: u8, haystack: &[u8]) -> (r: Option<usize>)
    ensures
        (match r {
            Some(i) => i < haystack@.len() && haystack@[i as int] == needle && (forall|j: int|
                0 <= j < i ==> haystack@[j] != needle),
            None => forall|j: int| 0 <= j < haystack@.len() ==> haystack@[j] != needle,
        }),
;

/// A WiFi network name: at most 32 bytes of NUL-free UTF-8.
pub struct Ssid {
    bytes: Vec<u8>,
}

impl View for Ssid {
    type V = Seq<u8>;

    closed spec fn view(&self) -> Seq<u8> {
        self.bytes@
    }
}

impl Clone for Ssid {
    fn clone(&self) -> (r: Self)
        ensures
            r@ == self@,
    {
        Ssid { bytes: crate::wifi::clone_bytes(&self.bytes) }
    }
}

/// Copy a byte vector.
fn clone_bytes(v: &Vec<u8>) -> (r: Vec<u8>)
    ensures
        r@ == v@,
{
    let mut out: Vec<u8> = Vec::new();
    let mut i: usize = 0;
    while i < v.len()
        invariant
            i <= v@.len(),
            out@ == v@.take(i as int),
        decreases v@.len() - i,
    {
        out.push(v[i]);
        proof {
            assert(v@.take(i + 1 as int) =~= v@.take(i as int).push(v@[i as int]));
        }
        i = i + 1;
    }
    proof {
        assert(v@.take(v@.len() as int) =~= v@);
    }
    out
}

impl Ssid {
    /// Validate and take a network name: refused when longer than 32
    /// bytes, not UTF-8, or holding an interior NUL byte, in that order.
    pub fn from_bytes(bytes: &[u8]) -> (r: Result<Ssid, WifiConfigError>)
        ensures
            (match r {
                Ok(s) => s@ == bytes@ && bytes@.len() <= 32 && is_utf8(bytes@) && (forall|j: int|
                    0 <= j < bytes@.len() ==> bytes@[j] != 0),
                Err(WifiConfigError::TooLong(max, n)) => max == 32 && n == bytes@.len()
                    && bytes@.len() > 32,
                Err(WifiConfigError::Utf8Error) => bytes@.len() <= 32 && !is_utf8(bytes@),
                Err(WifiConfigError::InteriorNul(i)) => bytes@.len() <= 32 && is_utf8(bytes@) && i
                    < bytes@.len() && bytes@[i as int] == 0 && (forall|j: int|
                    0 <= j < i ==> bytes@[j] != 0),
            }),
    {
        let n = bytes.len();
        if n > 32 {
            return Err(WifiConfigError::TooLong(32, n));
        }
        if !utf8_ok(bytes) {
            return Err(WifiConfigError::Utf8Error);
        }
        match memchr::memchr(0, bytes) {
            Some(i) => Err(WifiConfigError::InteriorNul(i)),
            None => Ok(Ssid { bytes: vstd::slice::slice_to_vec(bytes) }),
        }
    }

    /// The name's bytes.
    pub fn as_bytes(&self) -> (r: &Vec<u8>)
        ensures
            r@ == self@,
    {
        &self.bytes
    }

    /// The name's length in bytes.
    pub fn len(&self) -> (r: usize)
        ensures
            r == self@.len(),
    {
        self.bytes.len()
    }
}

/// A WiFi password: at most 64 bytes of NUL-free UTF-8.
pub struct Password {
    bytes: Vec<u8>,
}

impl View for Password {
    type V = Seq<u8>;

    closed spec fn view(&self) -> Seq<u8> {
        self.bytes@
    }
}

impl Clone for Password {
    fn clone(&self) -> (r: Self)
        ensures
            r@ == self@,
    {
        Password { bytes: clone_bytes(&self.bytes) }
    }
}

impl Default for Password {
    /// The empty password, for open networks.
    fn default() -> (r: Self)
        ensures
            r@ == Seq::<u8>::empty(),
    {
        let v: Vec<u8> = Vec::new();
        proof {
            assert(v@ =~= Seq::<u8>::empty());
        }
        Password { bytes: v }
    }
}

impl Password {
    /// Validate and take a password: refused when longer than 64 bytes,
    /// not UTF-8, or holding an interior NUL byte, in that order.
    pub fn from_bytes(bytes: &[u8]) -> (r: Result<Password, WifiConfigError>)
        ensures
            (match r {
                Ok(s) => s@ == bytes@ && bytes@.len() <= 64 && is_utf8(bytes@) && (forall|j: int|
                    0 <= j < bytes@.len() ==> bytes@[j] != 0),
                Err(WifiConfigError::TooLong(max, n)) => max == 64 && n == bytes@.len()
                    && bytes@.len() > 64,
                Err(WifiConfigError::Utf8Error) => bytes@.len() <= 64 && !is_utf8(bytes@),
                Err(WifiConfigError::InteriorNul(i)) => bytes@.len() <= 64 && is_utf8(bytes@) && i
                    < bytes@.len() && bytes@[i as int] == 0 && (forall|j: int|
                    0 <= j < i ==> bytes@[j] != 0),
            }),
    {
        let n = bytes.len();
        if n > 64 {
            return Err(WifiConfigError::TooLong(64, n));
        }
        if !utf8_ok(bytes) {
            return Err(WifiConfigError::Utf8Error);
        }
        match memchr::memchr(0, bytes) {
            Some(i) => Err(WifiConfigError::InteriorNul(i)),
            None => Ok(Password { bytes: vstd::slice::slice_to_vec(bytes) }),
        }
    }

    /// The password's bytes.
    pub fn as_bytes(&self) -> (r: &Vec<u8>)
        ensures
            r@ == self@,
    {
        &self.bytes
    }

    /// The password's length in bytes.
    pub fn len(&self) -> (r: usize)
        ensures
            r == self@.len(),
    {
        self.bytes.len()
    }
}

/// IP details of a running interface, each address as its four bytes.
#[derive(Clone, Copy, Debug)]
pub struct IpInfo {
    pub ip: [u8; 4],
    pub netmask: [u8; 4],
    pub gateway: [u8; 4],
}

impl IpInfo {
    /// Bundle the three addresses.
    pub fn new(ip: [u8; 4], netmask: [u8; 4], gateway: [u8; 4]) -> (r: IpInfo)
        ensures
            r.ip == ip,
            r.netmask == netmask,
            r.gateway == gateway,
    {
        IpInfo { ip, netmask, gateway }
    }

    /// The interface's own address.
    pub fn ip(&self) -> (r: [u8; 4])
        ensures
            r == self.ip,
    {
        self.ip
    }

    /// The network mask.
    pub fn netmask(&self) -> (r: [u8; 4])
        ensures
            r == self.netmask,
    {
        self.netmask
    }

    /// The gateway's address.
    pub fn gateway(&self) -> (r: [u8; 4])
        ensures
            r == self.gateway,
    {
        self.gateway
    }
}

/// Configuration for running an access point.
pub struct ApConfig {
    pub ssid: Ssid,
    pub password: Password,
    pub channel: u8,
    pub auth_mode: AuthMode,
    pub max_connection: u8,
    pub ssid_hidden: bool,
    pub beacon_interval: u16,
}

impl ApConfig {
    /// The network name the access point announces.
    pub fn ssid(&self) -> (r: &Ssid)
        ensures
            r == &self.ssid,
    {
        &self.ssid
    }

    /// The network's password.
    pub fn password(&self) -> (r: &Password)
        ensures
            r == &self.password,
    {
        &self.password
    }

    /// A builder with the defaults: channel 0, open authentication, at
    /// most 4 stations, announced SSID, beacon interval 100.
    pub fn builder() -> (r: ApConfigBuilder)
        ensures
            r.ssid is None,
            r.password@ == Seq::<u8>::empty(),
            r.channel == 0,
            r.auth_mode == AuthMode::Open,
            r.max_connection == 4,
            !r.ssid_hidden,
            r.beacon_interval == 100,
    {
        ApConfigBuilder {
            ssid: None,
            password: Password::default(),
            channel: 0,
            auth_mode: AuthMode::Open,
            max_connection: 4,
            ssid_hidden: false,
            beacon_interval: 100,
        }
    }
}

/// Builder for an access-point configuration; an SSID must be given
/// before `build`.
pub struct ApConfigBuilder {
    pub ssid: Option<Ssid>,
    pub password: Password,
    pub channel: u8,
    pub auth_mode: AuthMode,
    pub max_connection: u8,
    pub ssid_hidden: bool,
    pub beacon_interval: u16,
}

impl ApConfigBuilder {
    /// Set the network name.
    pub fn ssid(self, ssid: Ssid) -> (r: Self)
        ensures
            (r.ssid matches Some(s) && s@ == ssid@),
            r.password == self.password,
            r.channel == self.channel,
            r.auth_mode == self.auth_mode,
            r.max_connection == self.max_connection,
            r.ssid_hidden == self.ssid_hidden,
            r.beacon_interval == self.beacon_interval,
    {
        ApConfigBuilder { ssid: Some(ssid), ..self }
    }

    /// Set the network's password.
    pub fn password(self, password: Password) -> (r: Self)
        ensures
            r.password == password,
            r.ssid == self.ssid,
            r.channel == self.channel,
            r.auth_mode == self.auth_mode,
            r.max_connection == self.max_connection,
            r.ssid_hidden == self.ssid_hidden,
            r.beacon_interval == self.beacon_interval,
    {
        ApConfigBuilder { password, ..self }
    }

    /// The finished configuration.
    pub fn build(self) -> (r: ApConfig)
        requires
            self.ssid is Some,
        ensures
            r.ssid == self.ssid.unwrap(),
            r.password == self.password,
            r.channel == self.channel,
            r.auth_mode == self.auth_mode,
            r.max_connection == self.max_connection,
            r.ssid_hidden == self.ssid_hidden,
            r.beacon_interval == self.beacon_interval,
    {
        let ssid = match self.ssid {
            Some(s) => s,
            None => {
                proof {
                    assert(false);
                }
                Ssid { bytes: Vec::new() }
            },
        };
        ApConfig {
            ssid,
            password: self.password,
            channel: self.channel,
            auth_mode: self.auth_mode,
            max_connection: self.max_connection,
            ssid_hidden: self.ssid_hidden,
            beacon_interval: self.beacon_interval,
        }
    }
}

/// Scan approach used when looking for the access point to join.
#[derive(Clone, Copy, Debug, PartialEq, Eq, Structural)]
pub enum ScanMethod {
    Fast,
    Full,
}

impl Default for ScanMethod {
    fn default() -> (r: Self)
        ensures
            r == ScanMethod::Fast,
    {
        ScanMethod::Fast
    }
}

/// Order in which found access points are preferred.
#[derive(Clone, Copy, Debug, PartialEq, Eq, Structural)]
pub enum SortMethod {
    BySignal,
    BySecurity,
}

impl Default for SortMethod {
    fn default() -> (r: Self)
        ensures
            r == SortMethod::BySignal,
    {
        SortMethod::BySignal
    }
}

/// The weakest signal and authentication mode still acceptable when
/// choosing an access point.
#[derive(Clone, Copy, Debug, PartialEq, Eq, Structural)]
pub struct ScanThreshold {
    pub rssi: i8,
    pub auth_mode: AuthMode,
}

impl Default for ScanThreshold {
    fn default() -> (r: Self)
        ensures
            r.rssi == -127,
            r.auth_mode == AuthMode::Open,
    {
        ScanThreshold { rssi: -127, auth_mode: AuthMode::Open }
    }
}

/// Configuration for joining a network as a station.
pub struct StaConfig {
    pub ssid: Ssid,
    pub password: Password,
    pub scan_method: ScanMethod,
    pub bssid: Option<[u8; 6]>,
    pub channel: Option<u8>,
    pub listen_interval: Option<u16>,
    pub sort_method: SortMethod,
    pub threshold: Option<ScanThreshold>,
}

impl StaConfig {
    /// The network name to join.
    pub fn ssid(&self) -> (r: &Ssid)
        ensures
            r == &self.ssid,
    {
        &self.ssid
    }

    /// The network's password.
    pub fn password(&self) -> (r: &Password)
        ensures
            r == &self.password,
    {
        &self.password
    }

    /// A builder with the defaults: fast scan, no pinned access point or
    /// channel, sorted by signal, no threshold.
    pub fn builder() -> (r: StaConfigBuilder)
        ensures
            r.ssid is None,
            r.password@ == Seq::<u8>::empty(),
            r.scan_method == ScanMethod::Fast,
            r.bssid is None,
            r.channel is None,
            r.listen_interval is None,
            r.sort_method == SortMethod::BySignal,
            r.threshold is None,
    {
        StaConfigBuilder {
            ssid: None,
            password: Password::default(),
            scan_method: ScanMethod::Fast,
            bssid: None,
            channel: None,
            listen_interval: None,
            sort_method: SortMethod::BySignal,
            threshold: None,
        }
    }
}

/// Builder for a station configuration; an SSID must be given before
/// `build`.
pub struct StaConfigBuilder {
    pub ssid: Option<Ssid>,
    pub password: Password,
    pub scan_method: ScanMethod,
    pub bssid: Option<[u8; 6]>,
    pub channel: Option<u8>,
    pub listen_interval: Option<u16>,
    pub sort_method: SortMethod,
    pub threshold: Option<ScanThreshold>,
}

impl StaConfigBuilder {
    /// Set the network name to join.
    pub fn ssid(self, ssid: Ssid) -> (r: Self)
        ensures
            (r.ssid matches Some(s) && s@ == ssid@),
            r.password == self.password,
            r.scan_method == self.scan_method,
            r.bssid == self.bssid,
            r.channel == self.channel,
            r.listen_interval == self.listen_interval,
            r.sort_method == self.sort_method,
            r.threshold == self.threshold,
    {
        StaConfigBuilder { ssid: Some(ssid), ..self }
    }

    /// Set the network's password.
    pub fn password(self, password: Password) -> (r: Self)
        ensures
            r.password == password,
            r.ssid == self.ssid,
            r.scan_method == self.scan_method,
            r.bssid == self.bssid,
            r.channel == self.channel,
            r.listen_interval == self.listen_interval,
            r.sort_method == self.sort_method,
            r.threshold == self.threshold,
    {
        StaConfigBuilder { password, ..self }
    }

    /// The finished configuration.
    pub fn build(self) -> (r: StaConfig)
        requires
            self.ssid is Some,
        ensures
            r.ssid == self.ssid.unwrap(),
            r.password == self.password,
            r.scan_method == self.scan_method,
            r.bssid == self.bssid,
            r.channel == self.channel,
            r.listen_interval == self.listen_interval,
            r.sort_method == self.sort_method,
            r.threshold == self.threshold,
    {
        let ssid = match self.ssid {
            Some(s) => s,
            None => {
                proof {
                    assert(false);
                }
                Ssid { bytes: Vec::new() }
            },
        };
        StaConfig {
            ssid,
            password: self.password,
            scan_method: self.scan_method,
            bssid: self.bssid,
            channel: self.channel,
            listen_interval: self.listen_interval,
            sort_method: self.sort_method,
            threshold: self.threshold,
        }
    }
}

} // verus!
