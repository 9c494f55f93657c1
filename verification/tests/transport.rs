use netmd::error::NetMDError;
use netmd::transport::{bulk_chunk_end, bulk_reply_poll, reply_step, ReplyPoll, ReplyStep};

fn is_accept(s: &ReplyStep) -> bool {
    matches!(s, ReplyStep::Accept)
}

#[test]
fn status_bytes_decide_the_reply() {
    assert!(is_accept(&reply_step(&[0x09, 0x18], false, 0)));
    assert!(is_accept(&reply_step(&[0x0c], false, 0)));
    assert!(is_accept(&reply_step(&[0x0d], false, 0)));
    assert!(matches!(reply_step(&[0x08], false, 0), ReplyStep::Fail(NetMDError::NotImplemented)));
    match reply_step(&[0x0a, 0x18, 0x06], false, 0) {
        ReplyStep::Fail(NetMDError::Rejected(raw)) => assert_eq!(raw, vec![0x0a, 0x18, 0x06]),
        _ => panic!("expected a rejection"),
    }
    assert!(matches!(reply_step(&[], false, 0), ReplyStep::Fail(NetMDError::UnknownStatus(0))));
    assert!(matches!(reply_step(&[0x00], false, 0), ReplyStep::Fail(NetMDError::UnknownStatus(0))));
    assert!(matches!(reply_step(&[0x0b], false, 0), ReplyStep::Fail(NetMDError::UnknownStatus(0x0b))));
}

#[test]
fn interim_replies_back_off_or_are_accepted() {
    assert!(is_accept(&reply_step(&[0x0f], true, 0)));
    assert!(matches!(reply_step(&[0x0f], false, 0), ReplyStep::Retry(0)));
    assert!(matches!(reply_step(&[0x0f], false, 1), ReplyStep::Retry(100)));
    assert!(matches!(reply_step(&[0x0f], false, 2), ReplyStep::Retry(300)));
    assert!(matches!(reply_step(&[0x0f], false, 3), ReplyStep::Retry(700)));
}

#[test]
fn interim_budget_runs_out() {
    let mut poll = ReplyPoll::new();
    let mut retries = 0;
    while poll.may_read() {
        match poll.on_reply(&[0x0f], false) {
            ReplyStep::Retry(_) => retries += 1,
            _ => panic!("interim must be retried"),
        }
    }
    assert_eq!(retries, 4);
    assert_eq!(poll.attempt, 4);
}

#[test]
fn bulk_writes_are_cut_in_64k_pieces() {
    assert_eq!(bulk_chunk_end(0, 10), 10);
    assert_eq!(bulk_chunk_end(0, 0x30000), 0x10000);
    assert_eq!(bulk_chunk_end(0x20000, 0x30001), 0x30000);
    assert_eq!(bulk_chunk_end(0x30000, 0x30001), 0x30001);
}

#[test]
fn bulk_reply_polls_are_bounded() {
    assert_eq!(bulk_reply_poll(0), Some(200));
    assert_eq!(bulk_reply_poll(199), Some(200));
    assert_eq!(bulk_reply_poll(200), None);
}
