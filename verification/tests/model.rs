use pb_file_reader::utils::model::{
    gen_uid, EncType, FileType, NotifyEvent, NotifyEventData, NotifyMeta, UidCounter, CSV, DBF,
    MAX_READ_RETRY_TIME, MIN_READ_INTERVAL, NOTIFY_MAILBOX_CAPACITY, READ_FROM_HEAD_FLAG,
    READ_REQUEST_CAPACITY, SUBSCRIBER_CHANNEL_CAPACITY, LISTENER_CHANNEL_CAPACITY,
};
use pb_file_reader::utils::error::ReaderError;
use pb_file_reader::utils::timer::get_coarse_timestamp_ms;

#[test]
fn uids_count_up_from_one() {
    let mut counter = UidCounter::new();
    assert_eq!(gen_uid(&mut counter), 1);
    assert_eq!(gen_uid(&mut counter), 2);
    assert_eq!(gen_uid(&mut counter), 3);
}

#[test]
fn uids_of_two_counters_are_independent() {
    let mut first = UidCounter::new();
    let mut second = UidCounter::new();
    assert_eq!(gen_uid(&mut first), 1);
    assert_eq!(gen_uid(&mut first), 2);
    assert_eq!(gen_uid(&mut second), 1);
}

#[test]
fn uids_never_repeat_over_many_draws() {
    let mut counter = UidCounter::new();
    let mut last = 0;
    for _ in 0..10_000 {
        let uid = gen_uid(&mut counter);
        assert!(uid > last);
        last = uid;
    }
    assert_eq!(last, 10_000);
}

#[test]
fn new_meta_has_fresh_uid_and_empty_mailbox() {
    let mut counter = UidCounter::new();
    let first = NotifyMeta::new(&mut counter, "/data/1.csv".to_string());
    let second = NotifyMeta::new(&mut counter, "/data/1.csv".to_string());
    assert_eq!(first.uid, 1);
    assert_eq!(second.uid, 2);
    assert_eq!(first.file_path, "/data/1.csv");
    assert_eq!(first.last_bytes, 0);
    assert_eq!(first.cur_bytes, 0);
    assert!(first.receiver.try_recv().is_err());
    assert_eq!(first.sender.capacity(), Some(NOTIFY_MAILBOX_CAPACITY));
}

#[test]
fn meta_sender_and_receiver_share_one_queue() {
    let mut counter = UidCounter::new();
    let meta = NotifyMeta::new(&mut counter, "/data/1.csv".to_string());
    let event = NotifyEventData { event: NotifyEvent::WriteEvent, last_notify_time: 42 };
    meta.sender.try_send(event).unwrap();
    assert_eq!(meta.receiver.try_recv().unwrap(), event);
}

#[test]
fn cloned_meta_shares_identity_and_mailbox() {
    let mut counter = UidCounter::new();
    let meta = NotifyMeta::new(&mut counter, "/data/1.csv".to_string());
    let other = meta.clone();
    assert_eq!(other.uid, meta.uid);
    assert_eq!(other.file_path, meta.file_path);
    let event = NotifyEventData { event: NotifyEvent::ScheduleEvent, last_notify_time: 7 };
    other.sender.try_send(event).unwrap();
    assert_eq!(meta.receiver.try_recv().unwrap(), event);
}

#[test]
fn file_type_names() {
    assert_eq!(CSV::file_type(), "csv");
    assert_eq!(DBF::file_type(), "dbf");
}

#[test]
fn constants_fix_observable_behaviour() {
    assert_eq!(MAX_READ_RETRY_TIME, 5);
    assert_eq!(MIN_READ_INTERVAL, 1);
    assert_eq!(READ_FROM_HEAD_FLAG, u64::MAX);
    assert_eq!(LISTENER_CHANNEL_CAPACITY, 16);
    assert_eq!(NOTIFY_MAILBOX_CAPACITY, 3);
    assert_eq!(SUBSCRIBER_CHANNEL_CAPACITY, 16);
    assert_eq!(READ_REQUEST_CAPACITY, 4);
}

#[test]
fn enc_types_differ() {
    assert_ne!(EncType::GBK, EncType::UTF8);
    assert_eq!(EncType::UTF8, EncType::UTF8);
}

#[test]
fn error_messages() {
    assert_eq!(ReaderError::IoError("disk on fire".to_string()).message(), "disk on fire");
    assert_eq!(ReaderError::NotWatched.message(), "path is not watched");
    assert_eq!(ReaderError::NoSuchCert.message(), "no such subscription");
    assert_eq!(ReaderError::NoSuchReader.message(), "no reader for this path");
}

#[test]
fn coarse_clock_follows_its_last_refresh() {
    coarsetime::Clock::set_recent_since_epoch(coarsetime::Duration::from_secs(1_700_000_000));
    assert_eq!(get_coarse_timestamp_ms(), 1_700_000_000_000);
    coarsetime::Clock::set_recent_since_epoch(coarsetime::Duration::from_secs(1_700_000_002));
    assert_eq!(get_coarse_timestamp_ms(), 1_700_000_002_000);
}
