use captive_portal::connect::{ConnectFuture, ConnectPoll};
use captive_portal::radio::{RadioSlot, WifiError, WifiRunning};
use captive_portal::wifi::{
    ApConfig, AuthMode, EspError, IpInfo, Password, ScanMethod, ScanThreshold, SortMethod, Ssid,
    StaConfig, WifiConfigError,
};

fn ssid(s: &str) -> Ssid {
    Ssid::from_bytes(s.as_bytes()).expect("valid ssid")
}

fn password(s: &str) -> Password {
    Password::from_bytes(s.as_bytes()).expect("valid password")
}

fn sta_config() -> StaConfig {
    StaConfig::builder()
        .ssid(ssid("home-net"))
        .password(password("hunter22"))
        .build()
}

fn ap_config() -> ApConfig {
    ApConfig::builder().ssid(ssid("portal")).build()
}

/// A stand-in for the driver's event bus that counts handler
/// registrations, as a real port would register four callbacks.
struct EventBusDouble {
    registered: u32,
    register_calls: u32,
    unregister_calls: u32,
}

impl EventBusDouble {
    fn new() -> Self {
        EventBusDouble { registered: 0, register_calls: 0, unregister_calls: 0 }
    }

    fn register_all(&mut self) {
        self.register_calls += 4;
        self.registered += 4;
    }

    fn unregister_all(&mut self) {
        self.unregister_calls += 4;
        self.registered -= 4;
    }
}

#[test]
fn ssid_accepts_and_copies_bytes() {
    let s = ssid("my net");
    assert_eq!(s.as_bytes().as_slice(), b"my net");
    assert_eq!(s.len(), 6);
    let c = s.clone();
    assert_eq!(c.as_bytes().as_slice(), b"my net");
}

#[test]
fn ssid_rejects_too_long() {
    let bytes = [b'x'; 33];
    assert!(matches!(
        Ssid::from_bytes(&bytes),
        Err(WifiConfigError::TooLong(32, 33))
    ));
    assert!(Ssid::from_bytes(&[b'x'; 32]).is_ok());
}

#[test]
fn ssid_rejects_interior_nul() {
    assert!(matches!(
        Ssid::from_bytes(b"a\0b"),
        Err(WifiConfigError::InteriorNul(1))
    ));
}

#[test]
fn ssid_rejects_invalid_utf8() {
    assert!(matches!(Ssid::from_bytes(&[0xFF, 0xFE]), Err(WifiConfigError::Utf8Error)));
}

#[test]
fn password_limits_are_64_bytes() {
    let bytes = [b'p'; 65];
    assert!(matches!(
        Password::from_bytes(&bytes),
        Err(WifiConfigError::TooLong(64, 65))
    ));
    assert!(Password::from_bytes(&[b'p'; 64]).is_ok());
    assert!(matches!(
        Password::from_bytes(b"\0x"),
        Err(WifiConfigError::InteriorNul(0))
    ));
    let empty = Password::default();
    assert_eq!(empty.len(), 0);
}

#[test]
fn builders_fill_defaults() {
    let ap = ap_config();
    assert_eq!(ap.ssid().as_bytes().as_slice(), b"portal");
    assert_eq!(ap.password().len(), 0);
    assert_eq!(ap.channel, 0);
    assert!(matches!(ap.auth_mode, AuthMode::Open));
    assert_eq!(ap.max_connection, 4);
    assert!(!ap.ssid_hidden);
    assert_eq!(ap.beacon_interval, 100);

    let sta = sta_config();
    assert_eq!(sta.ssid().as_bytes().as_slice(), b"home-net");
    assert_eq!(sta.password().as_bytes().as_slice(), b"hunter22");
    assert!(matches!(sta.scan_method, ScanMethod::Fast));
    assert!(sta.bssid.is_none());
    assert!(sta.channel.is_none());
    assert!(sta.listen_interval.is_none());
    assert!(matches!(sta.sort_method, SortMethod::BySignal));
    assert!(sta.threshold.is_none());

    let t = ScanThreshold::default();
    assert_eq!(t.rssi, -127);
    assert!(matches!(t.auth_mode, AuthMode::Open));
}

#[test]
fn radio_is_taken_at_most_once() {
    let mut slot = RadioSlot::new();
    let first = slot.take().expect("free radio can be taken");
    assert!(slot.take().is_none());
    assert!(slot.take().is_none());
    slot.release(first);
    let again = slot.take().expect("released radio can be taken again");
    slot.release(again);
}

#[test]
fn failed_driver_call_returns_the_handle() {
    let mut slot = RadioSlot::new();
    let wifi = slot.take().unwrap();
    let err = Err(EspError { code: 0x3001 });
    let (wifi, e) = match wifi.into_sta(sta_config(), err) {
        Ok(_) => panic!("a failed mode switch must not advance"),
        Err(p) => p,
    };
    match e {
        WifiError::Internal(esp) => assert_eq!(esp.code, 0x3001),
        WifiError::ConnectionError(_) => panic!("wrong error class"),
    }
    // The returned handle is still usable, and the slot is still held.
    assert!(slot.take().is_none());
    let ap = wifi.into_ap(ap_config(), Ok(())).map_err(|_| ()).unwrap();
    let running = ap.start(Ok(())).map_err(|_| ()).unwrap();
    let (_config, wifi) = running.stop();
    slot.release(wifi);
}

#[test]
fn connect_success_yields_running_station() {
    let mut slot = RadioSlot::new();
    let wifi = slot.take().unwrap();
    let sta = wifi.into_sta(sta_config(), Ok(())).map_err(|_| ()).unwrap();
    let mut bus = EventBusDouble::new();
    let mut fut: ConnectFuture = sta.connect();

    assert_eq!(fut.poll(), ConnectPoll::Register);
    bus.register_all();
    fut.note_registered();
    fut.on_start_result(Ok(()));
    assert_eq!(fut.poll(), ConnectPoll::Pending);

    assert!(!fut.on_sta_start(Ok(())));
    assert!(!fut.on_sta_connected(ssid("home-net"), [1, 2, 3, 4, 5, 6], 11, AuthMode::Wpa2Psk));
    assert_eq!(fut.poll(), ConnectPoll::Pending);

    let lease = IpInfo::new([10, 0, 0, 9], [255, 255, 255, 0], [10, 0, 0, 1]);
    assert!(fut.on_got_ip(lease));
    assert_eq!(fut.poll(), ConnectPoll::Unregister);
    bus.unregister_all();
    fut.note_unregistered();

    let station = fut.resolve().map_err(|_| ()).unwrap();
    assert_eq!(station.ip_info().ip(), [10, 0, 0, 9]);
    assert_eq!(station.ip_info().gateway(), [10, 0, 0, 1]);
    assert_eq!(bus.registered, 0);

    let running = WifiRunning::Sta(station);
    let station = match running {
        WifiRunning::Sta(s) => s,
        WifiRunning::Ap(_) => panic!("station expected"),
    };
    let (config, wifi) = station.stop();
    assert_eq!(config.ssid().as_bytes().as_slice(), b"home-net");
    slot.release(wifi);
}

#[test]
fn failed_connect_falls_back_to_access_point() {
    let mut slot = RadioSlot::new();
    let wifi = slot.take().unwrap();
    let sta = wifi.into_sta(sta_config(), Ok(())).map_err(|_| ()).unwrap();
    let mut bus = EventBusDouble::new();
    let mut fut = sta.connect();

    assert_eq!(fut.poll(), ConnectPoll::Register);
    bus.register_all();
    fut.note_registered();
    fut.on_start_result(Ok(()));
    assert!(!fut.on_sta_start(Ok(())));
    assert!(fut.on_sta_disconnected(ssid("home-net"), [1, 2, 3, 4, 5, 6], 15));

    assert_eq!(fut.poll(), ConnectPoll::Unregister);
    bus.unregister_all();
    fut.note_unregistered();

    let err = match fut.resolve() {
        Ok(_) => panic!("a disconnect must fail the attempt"),
        Err(e) => e,
    };
    match &err {
        WifiError::ConnectionError(ce) => {
            assert_eq!(ce.ssid.as_bytes().as_slice(), b"home-net");
            assert_eq!(ce.bssid, [1, 2, 3, 4, 5, 6]);
            assert_eq!(ce.reason, 15);
        },
        WifiError::Internal(_) => panic!("a remote disconnect is not internal"),
    }

    // The radio comes back and can immediately start the portal's
    // access point, with the ownership slot still held throughout.
    assert!(slot.take().is_none());
    let wifi = err.wifi();
    let ap = wifi.into_ap(ap_config(), Ok(())).map_err(|_| ()).unwrap();
    let running = ap.start(Ok(())).map_err(|_| ()).unwrap();
    assert_eq!(bus.registered, 0);
    let (_config, wifi) = running.stop();
    slot.release(wifi);
    assert!(slot.take().is_some());
}

#[test]
fn synchronous_connect_failure_resolves_without_waiting() {
    let mut slot = RadioSlot::new();
    let wifi = slot.take().unwrap();
    let sta = wifi.into_sta(sta_config(), Ok(())).map_err(|_| ()).unwrap();
    let mut fut = sta.connect();
    assert_eq!(fut.poll(), ConnectPoll::Register);
    fut.note_registered();
    // The driver's own "begin association" call failed synchronously.
    assert!(fut.on_sta_start(Err(EspError { code: 0x300F })));
    assert_eq!(fut.poll(), ConnectPoll::Unregister);
    fut.note_unregistered();
    match fut.resolve() {
        Err(WifiError::Internal(e)) => assert_eq!(e.code, 0x300F),
        _ => panic!("the synchronous failure must surface"),
    }
}

#[test]
fn start_failure_after_registration_still_unregisters() {
    let mut slot = RadioSlot::new();
    let wifi = slot.take().unwrap();
    let sta = wifi.into_sta(sta_config(), Ok(())).map_err(|_| ()).unwrap();
    let mut bus = EventBusDouble::new();
    let mut fut = sta.connect();
    assert_eq!(fut.poll(), ConnectPoll::Register);
    bus.register_all();
    fut.note_registered();
    fut.on_start_result(Err(EspError { code: 0x5002 }));
    assert_eq!(fut.poll(), ConnectPoll::Unregister);
    bus.unregister_all();
    fut.note_unregistered();
    assert!(fut.resolve().is_err());
    assert_eq!(bus.registered, 0);
    assert_eq!(bus.register_calls, bus.unregister_calls);
}

#[test]
fn cancelling_a_pending_future_unregisters() {
    let mut slot = RadioSlot::new();
    let wifi = slot.take().unwrap();
    let sta = wifi.into_sta(sta_config(), Ok(())).map_err(|_| ()).unwrap();
    let mut bus = EventBusDouble::new();
    let mut fut = sta.connect();

    assert_eq!(fut.poll(), ConnectPoll::Register);
    bus.register_all();
    fut.note_registered();
    fut.on_start_result(Ok(()));
    assert_eq!(fut.poll(), ConnectPoll::Pending);

    // The owner drops the pending future before any event resolves it.
    if fut.cancel() {
        bus.unregister_all();
    }
    assert_eq!(bus.registered, 0);
    assert_eq!(bus.register_calls, 4);
    assert_eq!(bus.unregister_calls, 4);
}

#[test]
fn cancelling_before_registration_is_balanced() {
    let mut slot = RadioSlot::new();
    let wifi = slot.take().unwrap();
    let sta = wifi.into_sta(sta_config(), Ok(())).map_err(|_| ()).unwrap();
    let mut bus = EventBusDouble::new();
    let fut = sta.connect();
    if fut.cancel() {
        bus.unregister_all();
    }
    assert_eq!(bus.register_calls, 0);
    assert_eq!(bus.unregister_calls, 0);
}

#[test]
fn ip_info_carries_addresses() {
    let info = IpInfo::new([172, 16, 0, 2], [255, 255, 0, 0], [172, 16, 0, 1]);
    assert_eq!(info.ip(), [172, 16, 0, 2]);
    assert_eq!(info.netmask(), [255, 255, 0, 0]);
    assert_eq!(info.gateway(), [172, 16, 0, 1]);
}
