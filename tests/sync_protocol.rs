use mcu_link::error::LinkError;
use mcu_link::protocol::{ReadEvent, ReadSession, ReadStep, SyncSession, SyncStep, SYNC_MARKER, TERMINATOR, TRANSFER_ACK};

#[test]
fn markers() {
    assert_eq!(SYNC_MARKER, 0xFF);
    assert_eq!(TERMINATOR, 0x00);
    assert_eq!(TRANSFER_ACK, 0x06);
}

#[test]
fn sync_on_immediate_echo() {
    let mut s = SyncSession::new(5);
    assert_eq!(s.on_reply(ReadEvent::Byte(0xFF)), SyncStep::Synced);
    assert_eq!(s.attempts, 0);
}

#[test]
fn sync_after_stale_bytes() {
    let mut s = SyncSession::new(5);
    assert_eq!(s.on_reply(ReadEvent::Byte(0x12)), SyncStep::SendMarker);
    assert_eq!(s.on_reply(ReadEvent::Silence), SyncStep::SendMarker);
    assert_eq!(s.on_reply(ReadEvent::Byte(0xFF)), SyncStep::Synced);
    assert_eq!(s.attempts, 2);
}

#[test]
fn sync_times_out_when_never_echoed() {
    let mut s = SyncSession::new(3);
    assert_eq!(s.on_reply(ReadEvent::Silence), SyncStep::SendMarker);
    assert_eq!(s.on_reply(ReadEvent::Byte(0x00)), SyncStep::SendMarker);
    assert_eq!(s.on_reply(ReadEvent::Silence), SyncStep::Failed(LinkError::ProtocolTimeout));
    assert_eq!(s.on_reply(ReadEvent::Silence), SyncStep::Failed(LinkError::ProtocolTimeout));
}

#[test]
fn sync_with_zero_budget_fails_at_once() {
    let mut s = SyncSession::new(0);
    assert_eq!(s.on_reply(ReadEvent::Silence), SyncStep::Failed(LinkError::ProtocolTimeout));
}

#[test]
fn sync_io_error_is_link_lost() {
    let mut s = SyncSession::new(3);
    assert_eq!(s.on_reply(ReadEvent::IoError), SyncStep::Failed(LinkError::LinkLost));
}

#[test]
fn read_returns_bytes_before_terminator() {
    let mut r = ReadSession::new(5);
    for b in [0x10u8, 0x20, 0xFF, 0x7F] {
        assert_eq!(r.on_read(ReadEvent::Byte(b)), ReadStep::Continue);
    }
    assert_eq!(r.on_read(ReadEvent::Byte(0x00)), ReadStep::Done(vec![0x10, 0x20, 0xFF, 0x7F]));
}

#[test]
fn read_empty_response() {
    let mut r = ReadSession::new(1);
    assert_eq!(r.on_read(ReadEvent::Byte(0x00)), ReadStep::Done(Vec::new()));
}

#[test]
fn read_tolerates_silences_within_budget() {
    let mut r = ReadSession::new(4);
    assert_eq!(r.on_read(ReadEvent::Byte(7)), ReadStep::Continue);
    assert_eq!(r.on_read(ReadEvent::Silence), ReadStep::Continue);
    assert_eq!(r.on_read(ReadEvent::Silence), ReadStep::Continue);
    assert_eq!(r.on_read(ReadEvent::Byte(0)), ReadStep::Done(vec![7]));
}

#[test]
fn read_times_out_when_device_stays_silent() {
    let mut r = ReadSession::new(3);
    assert_eq!(r.on_read(ReadEvent::Byte(1)), ReadStep::Continue);
    assert_eq!(r.on_read(ReadEvent::Silence), ReadStep::Continue);
    assert_eq!(r.on_read(ReadEvent::Silence), ReadStep::Failed(LinkError::ProtocolTimeout));
}

#[test]
fn read_times_out_when_device_never_terminates() {
    let mut r = ReadSession::new(50);
    let mut steps = 0;
    loop {
        steps += 1;
        match r.on_read(ReadEvent::Byte(0xAA)) {
            ReadStep::Continue => assert!(steps < 50),
            other => {
                assert_eq!(other, ReadStep::Failed(LinkError::ProtocolTimeout));
                break;
            }
        }
    }
    assert_eq!(steps, 50);
}

#[test]
fn read_payload_filling_budget_still_ends() {
    let mut r = ReadSession::new(3);
    assert_eq!(r.on_read(ReadEvent::Byte(1)), ReadStep::Continue);
    assert_eq!(r.on_read(ReadEvent::Byte(2)), ReadStep::Continue);
    assert_eq!(r.on_read(ReadEvent::Byte(0)), ReadStep::Done(vec![1, 2]));
}

#[test]
fn read_io_error_is_link_lost() {
    let mut r = ReadSession::new(3);
    assert_eq!(r.on_read(ReadEvent::IoError), ReadStep::Failed(LinkError::LinkLost));
}
