use farreach::config::{MonitorConfig, SeggerRttConfig, TargetConfig, TargetTable};
use farreach::protocol::{DeviceOverrides, Platform};
use farreach::runner::{MonitorLaunch, RenderError, ResolveError, ResolvedTarget};

fn esp_target() -> ResolvedTarget {
    ResolvedTarget {
        name: "esp32c3".to_string(),
        platform: None,
        flash: None,
        monitor: None,
        serial: Some("/dev/ttyUSB0".to_string()),
        baud: Some(115200),
        chip: Some("esp32c3".to_string()),
    }
}

fn words(items: &[&str]) -> Vec<String> {
    items.iter().map(|s| s.to_string()).collect()
}

#[test]
fn renders_command_placeholders() {
    let target = esp_target();

    let rendered = target
        .render(
            &[
                "espflash".to_string(),
                "flash".to_string(),
                "--port".to_string(),
                "{serial}".to_string(),
                "--chip".to_string(),
                "{chip}".to_string(),
                "{firmware}".to_string(),
            ],
            Some("/tmp/fw.bin"),
            "fw.bin",
        )
        .unwrap();

    assert_eq!(
        rendered,
        vec![
            "espflash",
            "flash",
            "--port",
            "/dev/ttyUSB0",
            "--chip",
            "esp32c3",
            "/tmp/fw.bin"
        ]
    );
}

#[test]
fn renders_target_platform_baud_and_firmware_name() {
    let mut target = esp_target();
    target.platform = Some(Platform::Esp);
    let out = target
        .render_arg("{target}/{platform}@{baud}:{firmware_name}", Some("/x/fw.elf"), "fw.elf")
        .unwrap();
    assert_eq!(out, "esp32c3/esp@115200:fw.elf");
}

#[test]
fn replaces_every_occurrence() {
    let target = esp_target();
    let out = target.render_arg("{chip}-{chip}{chip}", None, "").unwrap();
    assert_eq!(out, "esp32c3-esp32c3esp32c3");
}

#[test]
fn substituted_values_are_filled_later_in_order() {
    let mut target = esp_target();
    target.name = "board-{chip}".to_string();
    let out = target.render_arg("{target}", None, "").unwrap();
    assert_eq!(out, "board-esp32c3");
}

#[test]
fn plain_argument_passes_through() {
    let target = esp_target();
    assert_eq!(target.render_arg("--verify", None, "").unwrap(), "--verify");
    assert_eq!(target.render_arg("", None, "").unwrap(), "");
}

#[test]
fn missing_values_are_errors() {
    let mut target = esp_target();
    assert!(matches!(target.render_arg("{firmware}", None, ""), Err(RenderError::MissingFirmware)));
    assert!(matches!(target.render_arg("{platform}", None, ""), Err(RenderError::MissingPlatform)));
    target.serial = None;
    target.baud = None;
    target.chip = None;
    assert!(matches!(target.render_arg("{serial}", None, ""), Err(RenderError::MissingSerial)));
    assert!(matches!(target.render_arg("{baud}", None, ""), Err(RenderError::MissingBaud)));
    assert!(matches!(target.render_arg("{chip}", None, ""), Err(RenderError::MissingChip)));
}

#[test]
fn unknown_placeholder_is_an_error() {
    let target = esp_target();
    match target.render_arg("--x={nope}", None, "") {
        Err(RenderError::UnknownPlaceholder { arg }) => assert_eq!(arg, "--x={nope}"),
        other => panic!("unexpected {:?}", other.map(|_| ())),
    }
    assert!(matches!(
        target.render_arg("tail}", None, ""),
        Err(RenderError::UnknownPlaceholder { .. })
    ));
}

#[test]
fn firmware_name_without_upload_is_empty() {
    let target = esp_target();
    assert_eq!(target.render_arg("[{firmware_name}]", None, "").unwrap(), "[]");
}

#[test]
fn render_stops_at_first_error_and_refuses_empty_template() {
    let target = esp_target();
    let err = target.render(&words(&["ok", "{firmware}", "{bad}"]), None, "").unwrap_err();
    assert!(matches!(err, RenderError::MissingFirmware));
    assert!(matches!(target.render(&[], None, ""), Err(RenderError::EmptyTemplate)));
}

#[test]
fn flash_and_monitor_commands() {
    let mut target = esp_target();
    assert!(matches!(target.render_flash("/tmp/a.bin", "a.bin"), Err(RenderError::NoFlashCommand)));
    assert!(matches!(target.render_monitor(None, ""), Err(RenderError::NoMonitorCommand)));
    target.flash = Some(words(&["espflash", "flash", "--port", "{serial}", "{firmware}"]));
    target.monitor = Some(MonitorConfig::Command(words(&[
        "espflash", "monitor", "--baud", "{baud}", "{firmware_name}",
    ])));
    assert_eq!(
        target.render_flash("/tmp/a.bin", "a.bin").unwrap(),
        vec!["espflash", "flash", "--port", "/dev/ttyUSB0", "/tmp/a.bin"]
    );
    match target.render_monitor(Some("/tmp/a.bin"), "a.bin").unwrap() {
        MonitorLaunch::Command(argv) => {
            assert_eq!(argv, vec!["espflash", "monitor", "--baud", "115200", "a.bin"])
        }
        MonitorLaunch::SeggerRtt(_) => panic!("expected a command"),
    }
    target.monitor = Some(MonitorConfig::SeggerRtt(SeggerRttConfig {
        host: "10.0.0.2".to_string(),
        port: 2331,
        connect_timeout_ms: 100,
    }));
    match target.render_monitor(None, "").unwrap() {
        MonitorLaunch::SeggerRtt(c) => {
            assert_eq!(c.host, "10.0.0.2");
            assert_eq!(c.port, 2331);
            assert_eq!(c.connect_timeout_ms, 100);
        }
        MonitorLaunch::Command(_) => panic!("expected SEGGER RTT"),
    }
}

fn config(platform: Option<Platform>, serial: Option<&str>, baud: Option<u32>) -> TargetConfig {
    TargetConfig {
        platform,
        flash: Some(words(&["probe-rs", "download", "{firmware}"])),
        monitor: None,
        serial: serial.map(|s| s.to_string()),
        baud,
        chip: Some("nRF52840_xxAA".to_string()),
    }
}

fn table() -> TargetTable {
    let mut t = TargetTable::new();
    t.insert("esp32c3".to_string(), config(Some(Platform::Esp), Some("/dev/ttyUSB0"), Some(115200)));
    t.insert("nrf52".to_string(), config(Some(Platform::Nordic), None, None));
    t.insert("nrf52-rtt".to_string(), config(Some(Platform::Nordic), None, None));
    t
}

fn device(target: Option<&str>, platform: Option<Platform>) -> DeviceOverrides {
    DeviceOverrides {
        target: target.map(|s| s.to_string()),
        platform,
        serial: None,
        baud: None,
        chip: None,
    }
}

#[test]
fn resolves_named_target() {
    let t = ResolvedTarget::resolve(&table(), device(Some("nrf52"), None)).unwrap();
    assert_eq!(t.name, "nrf52");
    assert_eq!(t.platform, Some(Platform::Nordic));
    assert_eq!(t.chip.as_deref(), Some("nRF52840_xxAA"));
    assert_eq!(t.flash, Some(words(&["probe-rs", "download", "{firmware}"])));
}

#[test]
fn unknown_target_is_refused() {
    match ResolvedTarget::resolve(&table(), device(Some("stm32"), None)) {
        Err(ResolveError::UnknownTarget { name }) => assert_eq!(name, "stm32"),
        _ => panic!("expected an unknown target"),
    }
}

#[test]
fn platform_hint_selects_only_target_of_platform() {
    let t = ResolvedTarget::resolve(&table(), device(None, Some(Platform::Esp))).unwrap();
    assert_eq!(t.name, "esp32c3");
    assert!(matches!(
        ResolvedTarget::resolve(&table(), device(None, Some(Platform::Nordic))),
        Err(ResolveError::AmbiguousPlatform { platform: Platform::Nordic, count: 2 })
    ));
    assert!(matches!(
        ResolvedTarget::resolve(&table(), device(None, Some(Platform::Stm32))),
        Err(ResolveError::NoTargetForPlatform { platform: Platform::Stm32 })
    ));
}

#[test]
fn single_target_is_selected_automatically() {
    let mut one = TargetTable::new();
    one.insert("stm32".to_string(), config(None, None, None));
    let t = ResolvedTarget::resolve(&one, device(None, Some(Platform::Stm32)));
    assert!(matches!(t, Err(ResolveError::NoTargetForPlatform { .. })));
    let t = ResolvedTarget::resolve(&one, device(None, None)).unwrap();
    assert_eq!(t.name, "stm32");
    assert!(matches!(
        ResolvedTarget::resolve(&TargetTable::new(), device(None, None)),
        Err(ResolveError::NoTargets)
    ));
    assert!(matches!(
        ResolvedTarget::resolve(&table(), device(None, None)),
        Err(ResolveError::TargetRequired { count: 3 })
    ));
}

#[test]
fn request_overrides_win_over_configuration() {
    let mut d = device(Some("esp32c3"), Some(Platform::Nordic));
    d.serial = Some("/dev/ttyACM0".to_string());
    d.baud = Some(921600);
    d.chip = Some("esp32c6".to_string());
    let t = ResolvedTarget::resolve(&table(), d).unwrap();
    assert_eq!(t.serial.as_deref(), Some("/dev/ttyACM0"));
    assert_eq!(t.baud, Some(921600));
    assert_eq!(t.chip.as_deref(), Some("esp32c6"));
    assert_eq!(t.platform, Some(Platform::Esp));
    let t = ResolvedTarget::resolve(&table(), device(Some("esp32c3"), None)).unwrap();
    assert_eq!(t.serial.as_deref(), Some("/dev/ttyUSB0"));
    assert_eq!(t.baud, Some(115200));
}

#[test]
fn platform_hint_fills_unset_platform() {
    let mut one = TargetTable::new();
    one.insert("board".to_string(), config(None, None, None));
    let t = ResolvedTarget::resolve(&one, device(Some("board"), Some(Platform::Stm32))).unwrap();
    assert_eq!(t.platform, Some(Platform::Stm32));
}

#[test]
fn table_insert_replaces_same_name() {
    let mut t = table();
    assert_eq!(t.len(), 3);
    t.insert("nrf52".to_string(), config(Some(Platform::Stm32), None, None));
    assert_eq!(t.len(), 3);
    let i = t.find("nrf52").unwrap();
    assert_eq!(t.name_at(i), "nrf52");
    assert_eq!(t.config_at(i).platform, Some(Platform::Stm32));
    assert!(t.find("missing").is_none());
}
