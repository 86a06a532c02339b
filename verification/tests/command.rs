use farreach::command::{lossy_output, CommandError, CommandRun, ProcessEvent};
use farreach::protocol::{Phase, WireEvent};

#[test]
fn empty_command_is_refused() {
    assert!(matches!(CommandRun::start(Phase::Flash, &vec![]), Err(CommandError::EmptyCommand)));
}

#[test]
fn command_lifecycle() {
    let argv = vec!["espflash".to_string(), "flash".to_string()];
    let (mut run, started) = CommandRun::start(Phase::Flash, &argv).unwrap();
    match started {
        WireEvent::CommandStarted { phase, argv: a } => {
            assert_eq!(phase, Phase::Flash);
            assert_eq!(a, argv);
        }
        _ => panic!("expected CommandStarted"),
    }
    assert!(run.running());
    match run.on_event(ProcessEvent::Stdout(b"hello\n".to_vec())) {
        Some(WireEvent::Stdout { phase, text }) => {
            assert_eq!(phase, Phase::Flash);
            assert_eq!(text, "hello\n");
        }
        _ => panic!("expected Stdout"),
    }
    assert!(matches!(
        run.on_event(ProcessEvent::Stderr(vec![b'a', 0xff, b'b'])),
        Some(WireEvent::Stderr { text, .. }) if text == "a\u{FFFD}b"
    ));
    assert!(run.on_event(ProcessEvent::Exited { code: Some(0), success: true }).is_none());
    assert!(run.running());
    assert!(run.finish().is_none());
    assert!(run.on_event(ProcessEvent::Stdout(vec![])).is_none());
    assert!(run.on_event(ProcessEvent::Stdout(b"late".to_vec())).is_none());
    assert!(run.on_event(ProcessEvent::Stderr(vec![])).is_none());
    assert!(!run.running());
    assert!(run.on_event(ProcessEvent::Exited { code: Some(1), success: false }).is_none());
    match run.finish() {
        Some((WireEvent::CommandExited { phase, code, success }, ok)) => {
            assert_eq!(phase, Phase::Flash);
            assert_eq!(code, Some(0));
            assert!(success);
            assert!(ok);
        }
        _ => panic!("expected CommandExited"),
    }
}

#[test]
fn lossy_output_keeps_valid_text() {
    assert_eq!(lossy_output("héllo".as_bytes()), "héllo");
    assert_eq!(lossy_output(&[0xc3]), "\u{FFFD}");
    assert!(!lossy_output(&[0xff]).is_empty());
}
