use mcu_link::error::LinkError;
use mcu_link::pipeline::{JobStatus, Pipeline};
use mcu_link::protocol::TRANSFER_ACK;

fn drain_bytes(p: &mut Pipeline) -> Vec<u8> {
    let mut out = Vec::new();
    while let Some(b) = p.next_byte() {
        out.push(b);
    }
    out
}

#[test]
fn two_submissions_are_sent_whole_and_in_order() {
    let mut p = Pipeline::new();
    let a = p.submit(String::from("first")).unwrap();
    let b = p.submit(String::from("second")).unwrap();
    assert!(a < b);

    let (id, src) = p.start_next().unwrap();
    assert_eq!(id, a);
    assert_eq!(src, "first");
    assert!(p.start_next().is_none());

    assert_eq!(p.finish_compile(true, Some(vec![1, 2, 3]), String::new()), Some(Ok(())));
    assert!(p.start_next().is_none());
    let mut wire = drain_bytes(&mut p);
    assert_eq!(p.status_of(a), Some(&JobStatus::Transferring));
    assert!(p.start_next().is_none());
    assert_eq!(p.finish_transfer(Ok(vec![TRANSFER_ACK])), Some(true));
    assert_eq!(p.status_of(a), Some(&JobStatus::Done));

    let (id, src) = p.start_next().unwrap();
    assert_eq!(id, b);
    assert_eq!(src, "second");
    assert_eq!(p.finish_compile(true, Some(vec![9, 8]), String::new()), Some(Ok(())));
    wire.extend(drain_bytes(&mut p));
    assert_eq!(p.finish_transfer(Ok(vec![TRANSFER_ACK])), Some(true));
    assert_eq!(wire, vec![1, 2, 3, 9, 8]);
    assert!(p.all_finished());
}

#[test]
fn compile_error_fails_only_that_submission() {
    let mut p = Pipeline::new();
    let a = p.submit(String::from("broken")).unwrap();
    let b = p.submit(String::from("fine")).unwrap();
    p.start_next();
    let r = p.finish_compile(false, None, String::from("syntax error"));
    assert_eq!(r, Some(Err(LinkError::CompileError(String::from("syntax error")))));
    assert_eq!(p.status_of(a), Some(&JobStatus::Failed(LinkError::CompileError(String::from("syntax error")))));
    assert_eq!(p.next_byte(), None);
    let (id, _) = p.start_next().unwrap();
    assert_eq!(id, b);
}

#[test]
fn link_lost_mid_transfer_fails_without_retry() {
    let mut p = Pipeline::new();
    let a = p.submit(String::from("x")).unwrap();
    p.start_next();
    p.finish_compile(true, Some(vec![5, 6, 7]), String::new());
    assert_eq!(p.next_byte(), Some(5));
    assert!(p.fail_active(LinkError::LinkLost));
    assert_eq!(p.status_of(a), Some(&JobStatus::Failed(LinkError::LinkLost)));
    assert_eq!(p.next_byte(), None);
    assert!(!p.fail_active(LinkError::ProtocolTimeout));
    assert!(p.start_next().is_none());
}

#[test]
fn nothing_to_do_on_empty_pipeline() {
    let mut p = Pipeline::new();
    assert!(p.start_next().is_none());
    assert_eq!(p.next_byte(), None);
    assert_eq!(p.finish_compile(true, Some(vec![1]), String::new()), None);
    assert!(p.all_finished());
}

#[test]
fn finished_submissions_are_discarded() {
    let mut p = Pipeline::new();
    let a = p.submit(String::from("a")).unwrap();
    let b = p.submit(String::from("b")).unwrap();
    p.start_next();
    p.finish_compile(true, Some(Vec::new()), String::new());
    assert_eq!(p.next_byte(), None);
    assert_eq!(p.finish_transfer(Ok(vec![TRANSFER_ACK])), Some(true));
    assert_eq!(p.status_of(a), Some(&JobStatus::Done));
    assert!(!p.all_finished());
    p.remove_finished();
    assert_eq!(p.status_of(a), None);
    assert_eq!(p.status_of(b), Some(&JobStatus::Queued));
}

#[test]
fn closed_pipeline_refuses_but_serves_queue() {
    let mut p = Pipeline::new();
    let a = p.submit(String::from("a")).unwrap();
    p.close();
    assert!(p.is_closed());
    assert_eq!(p.submit(String::from("late")), None);
    let (id, _) = p.start_next().unwrap();
    assert_eq!(id, a);
}

#[test]
fn transfer_not_finished_before_last_byte() {
    let mut p = Pipeline::new();
    let a = p.submit(String::from("a")).unwrap();
    p.start_next();
    p.finish_compile(true, Some(vec![4, 5]), String::new());
    assert_eq!(p.next_byte(), Some(4));
    assert_eq!(p.finish_transfer(Ok(vec![TRANSFER_ACK])), None);
    assert_eq!(p.status_of(a), Some(&JobStatus::Transferring));
    assert_eq!(p.next_byte(), Some(5));
    assert_eq!(p.next_byte(), None);
    assert_eq!(p.finish_transfer(Ok(vec![TRANSFER_ACK])), Some(true));
}

#[test]
fn wrong_acknowledgement_fails_transfer() {
    let mut p = Pipeline::new();
    let a = p.submit(String::from("a")).unwrap();
    p.start_next();
    p.finish_compile(true, Some(vec![4]), String::new());
    assert_eq!(p.next_byte(), Some(4));
    assert_eq!(p.next_byte(), None);
    assert_eq!(p.finish_transfer(Ok(vec![0x15])), Some(false));
    assert_eq!(p.status_of(a), Some(&JobStatus::Failed(LinkError::NotAcknowledged)));
}

#[test]
fn response_timeout_fails_transfer() {
    let mut p = Pipeline::new();
    let a = p.submit(String::from("a")).unwrap();
    p.start_next();
    p.finish_compile(true, Some(Vec::new()), String::new());
    assert_eq!(p.finish_transfer(Err(LinkError::ProtocolTimeout)), Some(false));
    assert_eq!(p.status_of(a), Some(&JobStatus::Failed(LinkError::ProtocolTimeout)));
    assert!(p.all_finished());
}
