use farreach::config::{
    default_segger_rtt_connect_timeout_ms, default_segger_rtt_host, default_segger_rtt_port,
    PeerKey, ServerConfig, TargetTable,
};

#[test]
fn segger_rtt_defaults() {
    assert_eq!(default_segger_rtt_host(), "127.0.0.1");
    assert_eq!(default_segger_rtt_port(), 19021);
    assert_eq!(default_segger_rtt_connect_timeout_ms(), 5_000);
}

#[test]
fn authorization() {
    let a = PeerKey { bytes: [1; 32] };
    let b = PeerKey { bytes: [2; 32] };
    let open = ServerConfig { authorized_peers: vec![], work_dir: None, targets: TargetTable::new() };
    assert!(open.is_authorized(&a));
    let closed = ServerConfig { authorized_peers: vec![a], work_dir: None, targets: TargetTable::new() };
    assert!(closed.is_authorized(&a));
    assert!(!closed.is_authorized(&b));
}
