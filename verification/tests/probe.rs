use std::time::Duration;

use rp_scale::scale::probe::{
    ProbeAction, ProbeEvent, ProbeOutcome, SerialPortProbe, should_try_unix_pty_fallback,
};

#[test]
fn stores_timeout_and_default_unit() {
    let probe = SerialPortProbe::new(Duration::from_millis(800), "kg");

    assert_eq!(probe.timeout(), Duration::from_millis(800));
    assert_eq!(probe.default_unit(), "kg");
}

#[test]
fn detects_unix_pty_fallback_errors() {
    assert!(should_try_unix_pty_fallback("Not a typewriter"));
    assert!(should_try_unix_pty_fallback("inappropriate ioctl for device"));
    assert!(!should_try_unix_pty_fallback("permission denied"));
}

#[test]
fn probe_finds_weight_across_reads() {
    let probe = SerialPortProbe::new(Duration::from_millis(100), "kg");
    let state = probe.probe_start();
    let (state, action) = probe.probe_step(state, ProbeEvent::Bytes(b"ST ".to_vec()));
    assert!(matches!(action, ProbeAction::ReadAgain));
    assert!(state.has_data);
    let (state, action) = probe.probe_step(state, ProbeEvent::Bytes(b"1.5kg\r\n".to_vec()));
    assert_eq!(state.raw, "ST 1.5kg\r\n");
    assert!(matches!(action, ProbeAction::Finish(Ok(ProbeOutcome { parsed_weight: true, has_data: true }))));
}

#[test]
fn probe_reports_silence_and_data_at_deadline() {
    let probe = SerialPortProbe::new(Duration::from_millis(100), "kg");
    let state = probe.probe_start();
    let (state, action) = probe.probe_step(state, ProbeEvent::NoBytes);
    assert!(matches!(action, ProbeAction::ReadAgain));
    let (state, action) = probe.probe_step(state, ProbeEvent::WouldWait);
    assert!(matches!(action, ProbeAction::PauseThenReadAgain));
    let (_, action) = probe.probe_step(state, ProbeEvent::Deadline);
    assert!(matches!(action, ProbeAction::Finish(Ok(outcome)) if outcome == ProbeOutcome::empty()));

    let state = probe.probe_start();
    let (state, _) = probe.probe_step(state, ProbeEvent::Bytes(vec![0xff, b'x']));
    assert_eq!(state.raw, "\u{fffd}x");
    let (_, action) = probe.probe_step(state, ProbeEvent::Deadline);
    assert!(matches!(action, ProbeAction::Finish(Ok(outcome)) if outcome == ProbeOutcome::data()));
}

#[test]
fn probe_keeps_last_240_bytes_and_passes_errors_on() {
    let probe = SerialPortProbe::new(Duration::from_millis(100), "kg");
    let state = probe.probe_start();
    let (state, _) = probe.probe_step(state, ProbeEvent::Bytes(vec![b'a'; 300]));
    assert_eq!(state.raw.len(), 240);
    let (_, action) = probe.probe_step(state, ProbeEvent::Failed("broken pipe".to_string()));
    assert!(matches!(action, ProbeAction::Finish(Err(message)) if message == "broken pipe"));
}

#[test]
fn probe_stops_when_the_cut_would_split_a_character() {
    let probe = SerialPortProbe::new(Duration::from_millis(100), "kg");
    let state = probe.probe_start();
    let mut bytes = "€".as_bytes().to_vec();
    bytes.extend_from_slice(&[b'a'; 239]);
    let (_, action) = probe.probe_step(state, ProbeEvent::Bytes(bytes));
    assert!(matches!(action, ProbeAction::CutInsideCharacter));
}
