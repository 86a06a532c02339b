use farreach::config::SeggerRttConfig;
use farreach::protocol::{Phase, WireEvent};
use farreach::segger::{RttSession, SeggerError};

fn cfg(host: &str, port: u16) -> SeggerRttConfig {
    SeggerRttConfig { host: host.to_string(), port, connect_timeout_ms: 5000 }
}

fn status(e: WireEvent) -> String {
    match e {
        WireEvent::Status { message } => message,
        _ => panic!("expected a status"),
    }
}

#[test]
fn endpoint_is_checked() {
    assert!(matches!(RttSession::start(&cfg("  ", 19021)), Err(SeggerError::EmptyHost)));
    assert!(matches!(RttSession::start(&cfg("", 19021)), Err(SeggerError::EmptyHost)));
    assert!(matches!(RttSession::start(&cfg("127.0.0.1", 0)), Err(SeggerError::ZeroPort)));
}

#[test]
fn rtt_stream_events() {
    let (s, ev) = RttSession::start(&cfg("127.0.0.1", 19021)).unwrap();
    assert_eq!(s.endpoint, "127.0.0.1:19021");
    assert_eq!(status(ev), "connecting to SEGGER RTT at 127.0.0.1:19021");
    assert_eq!(status(s.connected()), "connected to SEGGER RTT at 127.0.0.1:19021");
    match s.on_read(b"log line") {
        (WireEvent::Stdout { phase, text }, false) => {
            assert_eq!(phase, Phase::Monitor);
            assert_eq!(text, "log line");
        }
        _ => panic!("expected output"),
    }
    let (ev, over) = s.on_read(&[]);
    assert!(over);
    assert_eq!(status(ev), "SEGGER RTT connection at 127.0.0.1:19021 closed");
}
