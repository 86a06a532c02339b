use farreach::agent::addressing_lines;
use farreach::config::{MonitorConfig, PeerKey, SeggerRttConfig, ServerConfig, TargetConfig, TargetTable};
use farreach::protocol::{DeviceOverrides, FirmwareUpload, Phase, Platform, WireEvent, WireRequest};
use farreach::runner::{RenderError, ResolveError};
use farreach::session::{Session, SessionAction, SessionError, SessionInput};

fn words(items: &[&str]) -> Vec<String> {
    items.iter().map(|s| s.to_string()).collect()
}

fn config(peers: Vec<PeerKey>) -> ServerConfig {
    let mut targets = TargetTable::new();
    targets.insert(
        "esp32c3".to_string(),
        TargetConfig {
            platform: Some(Platform::Esp),
            flash: Some(words(&["espflash", "flash", "--port", "{serial}", "{firmware}"])),
            monitor: Some(MonitorConfig::Command(words(&["espflash", "monitor", "--baud", "{baud}"]))),
            serial: Some("/dev/ttyUSB0".to_string()),
            baud: Some(115200),
            chip: None,
        },
    );
    targets.insert(
        "nrf52-rtt".to_string(),
        TargetConfig {
            platform: Some(Platform::Nordic),
            flash: Some(words(&["probe-rs", "download", "--chip", "{chip}", "{firmware}"])),
            monitor: Some(MonitorConfig::SeggerRtt(SeggerRttConfig {
                host: "127.0.0.1".to_string(),
                port: 19021,
                connect_timeout_ms: 5000,
            })),
            serial: None,
            baud: None,
            chip: None,
        },
    );
    ServerConfig { authorized_peers: peers, work_dir: None, targets }
}

fn device(target: Option<&str>, platform: Option<Platform>) -> DeviceOverrides {
    DeviceOverrides { target: target.map(|s| s.to_string()), platform, serial: None, baud: None, chip: None }
}

fn connect(s: &mut Session, c: &ServerConfig) -> Vec<SessionAction> {
    s.step(c, SessionInput::Connected { peer: PeerKey { bytes: [9; 32] }, peer_text: "peer9".to_string() })
}

#[test]
fn flash_then_monitor() {
    let c = config(vec![]);
    let mut s = Session::new();
    let a = connect(&mut s, &c);
    assert!(matches!(&a[..], [SessionAction::Send(WireEvent::Accepted { peer }), SessionAction::ReadRequest] if peer == "peer9"));
    let a = s.step(&c, SessionInput::Request(Some(WireRequest::Flash {
        device: device(None, Some(Platform::Esp)),
        firmware_name: "../build/app.bin".to_string(),
        firmware_len: 10,
        monitor_after: true,
    })));
    match &a[..] {
        [SessionAction::ReceiveFirmware { file_name, len }] => {
            assert_eq!(file_name, "app.bin");
            assert_eq!(*len, 10);
        }
        _ => panic!("unexpected actions"),
    }
    let a = s.step(&c, SessionInput::FirmwareStored { copied: 10, path: "/tmp/up/app.bin".to_string() });
    match &a[..] {
        [SessionAction::Send(WireEvent::FirmwareSaved { bytes: 10 }), SessionAction::RunCommand { phase: Phase::Flash, argv }] => {
            assert_eq!(argv, &words(&["espflash", "flash", "--port", "/dev/ttyUSB0", "/tmp/up/app.bin"]));
        }
        _ => panic!("unexpected actions"),
    }
    let a = s.step(&c, SessionInput::CommandFinished { success: true });
    match &a[..] {
        [SessionAction::RunCommand { phase: Phase::Monitor, argv }] => {
            assert_eq!(argv, &words(&["espflash", "monitor", "--baud", "115200"]));
        }
        _ => panic!("unexpected actions"),
    }
    let a = s.step(&c, SessionInput::CommandFinished { success: false });
    assert!(matches!(&a[..], [SessionAction::Send(WireEvent::Done { success: false }), SessionAction::Finish]));
    let a = s.step(&c, SessionInput::CommandFinished { success: true });
    assert!(matches!(&a[..], [SessionAction::Fail(SessionError::OutOfOrder)]));
}

#[test]
fn failed_flash_skips_monitor() {
    let c = config(vec![]);
    let mut s = Session::new();
    connect(&mut s, &c);
    s.step(&c, SessionInput::Request(Some(WireRequest::Flash {
        device: device(Some("esp32c3"), None),
        firmware_name: "fw.bin".to_string(),
        firmware_len: 3,
        monitor_after: true,
    })));
    s.step(&c, SessionInput::FirmwareStored { copied: 3, path: "/tmp/fw.bin".to_string() });
    let a = s.step(&c, SessionInput::CommandFinished { success: false });
    assert!(matches!(&a[..], [SessionAction::Send(WireEvent::Done { success: false }), SessionAction::Finish]));
}

#[test]
fn flash_without_monitor_reports_flash_result() {
    let c = config(vec![]);
    let mut s = Session::new();
    connect(&mut s, &c);
    s.step(&c, SessionInput::Request(Some(WireRequest::Flash {
        device: device(Some("esp32c3"), None),
        firmware_name: "fw.bin".to_string(),
        firmware_len: 3,
        monitor_after: false,
    })));
    s.step(&c, SessionInput::FirmwareStored { copied: 3, path: "/tmp/fw.bin".to_string() });
    let a = s.step(&c, SessionInput::CommandFinished { success: true });
    assert!(matches!(&a[..], [SessionAction::Send(WireEvent::Done { success: true }), SessionAction::Finish]));
}

#[test]
fn unauthorized_peer_is_rejected() {
    let c = config(vec![PeerKey { bytes: [1; 32] }]);
    let mut s = Session::new();
    let a = connect(&mut s, &c);
    assert!(matches!(&a[..], [SessionAction::Reject, SessionAction::Fail(SessionError::Unauthorized)]));
    let a = s.step(&c, SessionInput::Request(None));
    assert!(matches!(&a[..], [SessionAction::Fail(SessionError::OutOfOrder)]));
}

#[test]
fn short_upload_is_not_flashed() {
    let c = config(vec![]);
    let mut s = Session::new();
    connect(&mut s, &c);
    s.step(&c, SessionInput::Request(Some(WireRequest::Flash {
        device: device(Some("esp32c3"), None),
        firmware_name: "fw.bin".to_string(),
        firmware_len: 100,
        monitor_after: false,
    })));
    let a = s.step(&c, SessionInput::FirmwareStored { copied: 40, path: "/tmp/fw.bin".to_string() });
    assert!(matches!(&a[..], [SessionAction::Fail(SessionError::UploadIncomplete { copied: 40, expected: 100 })]));
}

#[test]
fn request_errors() {
    let c = config(vec![]);
    let mut s = Session::new();
    connect(&mut s, &c);
    let a = s.step(&c, SessionInput::Request(None));
    assert!(matches!(&a[..], [SessionAction::Fail(SessionError::ClientClosed)]));

    let mut s = Session::new();
    connect(&mut s, &c);
    let a = s.step(&c, SessionInput::Request(Some(WireRequest::Monitor { device: device(Some("nope"), None), firmware: None })));
    assert!(matches!(&a[..], [SessionAction::Fail(SessionError::Resolve(ResolveError::UnknownTarget { .. }))]));

    let mut s = Session::new();
    connect(&mut s, &c);
    s.step(&c, SessionInput::Request(Some(WireRequest::Flash {
        device: device(Some("nrf52-rtt"), None),
        firmware_name: "fw.elf".to_string(),
        firmware_len: 1,
        monitor_after: false,
    })));
    let a = s.step(&c, SessionInput::FirmwareStored { copied: 1, path: "/tmp/fw.elf".to_string() });
    assert!(matches!(&a[..], [SessionAction::Send(WireEvent::FirmwareSaved { bytes: 1 }), SessionAction::Fail(SessionError::Render(RenderError::MissingChip))]));
}

#[test]
fn monitor_requests() {
    let c = config(vec![]);
    let mut s = Session::new();
    connect(&mut s, &c);
    let a = s.step(&c, SessionInput::Request(Some(WireRequest::Monitor { device: device(None, Some(Platform::Nordic)), firmware: None })));
    match &a[..] {
        [SessionAction::RunSeggerRtt(cfg)] => {
            assert_eq!(cfg.host, "127.0.0.1");
            assert_eq!(cfg.port, 19021);
        }
        _ => panic!("unexpected actions"),
    }
    let a = s.step(&c, SessionInput::CommandFinished { success: true });
    assert!(matches!(&a[..], [SessionAction::Send(WireEvent::Done { success: true }), SessionAction::Finish]));

    let mut s = Session::new();
    connect(&mut s, &c);
    let a = s.step(&c, SessionInput::Request(Some(WireRequest::Monitor {
        device: device(Some("esp32c3"), None),
        firmware: Some(FirmwareUpload { name: "sym/app.elf".to_string(), len: 5 }),
    })));
    assert!(matches!(&a[..], [SessionAction::ReceiveFirmware { file_name, len: 5 }] if file_name == "app.elf"));
    let a = s.step(&c, SessionInput::FirmwareStored { copied: 5, path: "/tmp/app.elf".to_string() });
    assert!(matches!(&a[..], [SessionAction::Send(WireEvent::FirmwareSaved { bytes: 5 }), SessionAction::RunCommand { phase: Phase::Monitor, .. }]));
}

#[test]
fn addressing_banner() {
    let lines = addressing_lines("abc", Some("https://relay.example/"), &words(&["1.2.3.4:5", "[::1]:6"]));
    assert_eq!(lines, words(&[
        "agent endpoint id: abc",
        "agent relay url: https://relay.example/",
        "agent direct addrs: 1.2.3.4:5 [::1]:6",
        "",
        "client example:",
        "  far-reach flash --peer abc --relay-url https://relay.example/ --target <target> --firmware <firmware>",
        "",
    ]));
    let lines = addressing_lines("abc", None, &vec![]);
    assert_eq!(lines, words(&[
        "agent endpoint id: abc",
        "",
        "client example:",
        "  far-reach flash --peer abc --target <target> --firmware <firmware>",
        "",
    ]));
}
