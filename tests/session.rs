use ft60x::ft60x::{
    check_config_written, config_from_control_read, streaming_mode_command, SessionEvent,
    SessionState, DEFAULT_PID, DEFAULT_VID,
};
use ft60x::ft60x_config::FT60xConfig;
use ft60x::{Error, UsbError};

#[test]
fn streaming_command_bytes() {
    let c = streaming_mode_command();
    assert_eq!(c.len(), 20);
    assert_eq!(c[4], 0x82);
    assert_eq!(c[5], 0x02);
    assert_eq!(c[11], 0x40);
    assert_eq!(c.iter().filter(|b| **b != 0).count(), 3);
}

#[test]
fn default_identifiers() {
    assert_eq!(DEFAULT_VID, 0x0403);
    assert_eq!(DEFAULT_PID, 0x601f);
}

#[test]
fn control_read_of_wrong_length_is_a_protocol_error() {
    let r = config_from_control_read(151, [0u8; 152]);
    assert_eq!(r.unwrap_err(), Error::ProtocolMismatch { expected: 152, actual: 151 });
}

#[test]
fn control_read_of_full_record_is_decoded() {
    let mut bytes = [0u8; 152];
    bytes[0] = 0x03;
    bytes[1] = 0x04;
    bytes[4..10].copy_from_slice(&[2, 3, 2, 3, 2, 3]);
    let c: FT60xConfig = config_from_control_read(152, bytes).unwrap();
    assert_eq!(c.vid, 0x0403);
    assert_eq!(c.manufacturer, "");
}

#[test]
fn control_write_count_is_checked() {
    assert_eq!(check_config_written(152), Ok(()));
    assert_eq!(
        check_config_written(0).unwrap_err(),
        Error::ProtocolMismatch { expected: 152, actual: 0 }
    );
}

#[test]
fn session_lifecycle() {
    let s = SessionState::Idle;
    assert!(s.needs_mode_switch());
    assert!(!s.may_fill());
    let s = s.next(SessionEvent::ModeSwitched);
    assert_eq!(s, SessionState::StreamingModeSet);
    assert!(!s.needs_mode_switch());
    let s = s.next(SessionEvent::ModeSwitched);
    assert_eq!(s, SessionState::StreamingModeSet);
    let s = s.next(SessionEvent::WorkerStarted);
    assert_eq!(s, SessionState::Running);
    let s = s.next(SessionEvent::BufferPublished);
    assert!(s.may_fill());
    assert_eq!(s.next(SessionEvent::ConsumerGone), SessionState::Cancelled);
    let fatal = s.next(SessionEvent::FillFailed(Error::ShortTransfer { requested: 4, actual: 2 }));
    assert_eq!(fatal, SessionState::Fatal);
    assert_eq!(fatal.next(SessionEvent::WorkerStarted), SessionState::Fatal);
    assert_eq!(
        SessionState::Idle.next(SessionEvent::ModeSwitchFailed(UsbError::Timeout)),
        SessionState::Fatal
    );
}
