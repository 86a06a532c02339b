use farreach::client::{
    flash_request, monitor_request, phase_name, shell_word, shellish, ClientError, ClientOutput,
    ClientSession,
};
use farreach::protocol::{DeviceOverrides, Phase, Platform, WireEvent, WireRequest};

fn no_overrides() -> DeviceOverrides {
    DeviceOverrides { target: None, platform: Some(Platform::Esp), serial: None, baud: None, chip: None }
}

fn line(o: Option<ClientOutput>) -> String {
    match o {
        Some(ClientOutput::Line(s)) => s,
        _ => panic!("expected a line"),
    }
}

#[test]
fn phase_names() {
    assert_eq!(phase_name(Phase::Flash), "flash");
    assert_eq!(phase_name(Phase::Monitor), "monitor");
}

#[test]
fn shellish_quotes_only_unsafe_arguments() {
    assert_eq!(shell_word("--port=/dev/ttyUSB0"), "--port=/dev/ttyUSB0");
    assert_eq!(shell_word("a b"), "\"a b\"");
    assert_eq!(shell_word("say \"hi\""), "\"say \\\"hi\\\"\"");
    let argv = vec!["espflash".to_string(), "flash".to_string(), "my file.bin".to_string()];
    assert_eq!(shellish(&argv), "espflash flash \"my file.bin\"");
    assert_eq!(shellish(&[]), "");
}

#[test]
fn requests_carry_file_name_only() {
    match flash_request(no_overrides(), "build/out/app.elf", 1234, true) {
        WireRequest::Flash { firmware_name, firmware_len, monitor_after, device } => {
            assert_eq!(firmware_name, "app.elf");
            assert_eq!(firmware_len, 1234);
            assert!(monitor_after);
            assert_eq!(device.platform, Some(Platform::Esp));
        }
        _ => panic!("expected a flash request"),
    }
    match flash_request(no_overrides(), "/", 1, false) {
        WireRequest::Flash { firmware_name, .. } => assert_eq!(firmware_name, "firmware.bin"),
        _ => panic!("expected a flash request"),
    }
    match monitor_request(no_overrides(), Some(("target/app", 99))) {
        WireRequest::Monitor { firmware: Some(up), .. } => {
            assert_eq!(up.name, "app");
            assert_eq!(up.len, 99);
        }
        _ => panic!("expected a monitor request with an upload"),
    }
    assert!(matches!(
        monitor_request(no_overrides(), None),
        WireRequest::Monitor { firmware: None, .. }
    ));
}

#[test]
fn events_are_printed() {
    let mut c = ClientSession::new();
    assert_eq!(line(c.on_event(WireEvent::Accepted { peer: "abc".to_string() })), "accepted by server as peer abc");
    assert_eq!(line(c.on_event(WireEvent::FirmwareSaved { bytes: 4096 })), "uploaded 4096 bytes");
    assert_eq!(line(c.on_event(WireEvent::Status { message: "hi".to_string() })), "[status] hi");
    assert_eq!(
        line(c.on_event(WireEvent::TargetResolved { target: "esp32c3".to_string(), platform: Some(Platform::Esp) })),
        "[target] esp32c3 (esp)"
    );
    assert_eq!(
        line(c.on_event(WireEvent::TargetResolved { target: "x".to_string(), platform: None })),
        "[target] x (unspecified)"
    );
    assert_eq!(
        line(c.on_event(WireEvent::CommandStarted {
            phase: Phase::Flash,
            argv: vec!["probe-rs".to_string(), "a b".to_string()],
        })),
        "[flash] probe-rs \"a b\""
    );
    assert_eq!(
        line(c.on_event(WireEvent::CommandExited { phase: Phase::Monitor, code: Some(-2), success: false })),
        "[monitor] exited with -2 (failed)"
    );
    assert_eq!(
        line(c.on_event(WireEvent::CommandExited { phase: Phase::Flash, code: None, success: true })),
        "[flash] exited with signal (ok)"
    );
    assert!(matches!(
        c.on_event(WireEvent::Stdout { phase: Phase::Flash, text: "out".to_string() }),
        Some(ClientOutput::Text(t)) if t == "out"
    ));
    assert!(matches!(
        c.on_event(WireEvent::Stderr { phase: Phase::Flash, text: "err".to_string() }),
        Some(ClientOutput::ErrText(t)) if t == "err"
    ));
    assert_eq!(c.success, None);
}

#[test]
fn outcome_follows_last_completion_event() {
    let mut c = ClientSession::new();
    assert_eq!(c.outcome(), Err(ClientError::NoCompletion));
    assert!(c.on_event(WireEvent::Done { success: true }).is_none());
    assert_eq!(c.outcome(), Ok(()));
    assert!(matches!(
        c.on_event(WireEvent::Error { message: "boom".to_string() }),
        Some(ClientOutput::ErrLine(s)) if s == "server error: boom"
    ));
    assert_eq!(c.outcome(), Err(ClientError::RemoteFailed));
    c.on_event(WireEvent::Status { message: "later".to_string() });
    assert_eq!(c.outcome(), Err(ClientError::RemoteFailed));
    c.on_event(WireEvent::Done { success: false });
    assert_eq!(c.outcome(), Err(ClientError::RemoteFailed));
}

#[test]
fn safe_shellish_line_splits_back_into_arguments() {
    let argv = vec!["probe-rs".to_string(), "download".to_string(), "--chip=nRF52840_xxAA".to_string(), "/tmp/fw.elf".to_string()];
    let line = shellish(&argv);
    let back: Vec<String> = line.split(' ').map(String::from).collect();
    assert_eq!(back, argv);
}
