use pb_file_reader::notify::cmon_listener::{CmonListener, NotifyReport, WatchInstall};
use pb_file_reader::reader::manager::{
    get_or_create_csv_reader, get_or_create_dbf_reader, remove_csv_reader, remove_dbf_reader,
    ReaderRegistry,
};
use pb_file_reader::reader::subscribe_reader::ReaderOptions;
use pb_file_reader::utils::error::ReaderError;
use pb_file_reader::utils::model::{EncType, NotifyEvent, NotifyEventData, CSV, DBF};

#[derive(Debug, Clone, PartialEq)]
struct TestCsvStruct1 {
    a: i32,
    b: i32,
    c: i64,
}

#[derive(Debug, Clone, PartialEq)]
struct TestCsvStruct2 {
    a: i32,
    b: i32,
    c: i64,
}

type Pred1 = fn(&String, &TestCsvStruct1) -> bool;
type Pred2 = fn(&String, &TestCsvStruct2) -> bool;

const TAG_1: u64 = 1;
const TAG_2: u64 = 2;

const OPTIONS: ReaderOptions =
    ReaderOptions { before_register_data: true, reset_seek_when_err: false };

fn path() -> String {
    "/data/1.csv".to_string()
}

#[test]
fn same_file_and_mode_give_the_same_reader() {
    let mut listener = CmonListener::new();
    let mut registry = ReaderRegistry::<TestCsvStruct1, Pred1, CSV>::new();
    assert!(registry.needs_os_watch(&listener, &path(), true));
    let first = get_or_create_csv_reader(
        &mut registry,
        &mut listener,
        TAG_1,
        &path(),
        true,
        EncType::UTF8,
        OPTIONS,
        WatchInstall::Installed,
    )
    .unwrap();
    assert!(!registry.needs_os_watch(&listener, &path(), true));
    for _ in 0..5 {
        let again = get_or_create_csv_reader(
            &mut registry,
            &mut listener,
            TAG_1,
            &path(),
            true,
            EncType::UTF8,
            OPTIONS,
            WatchInstall::NotAttempted,
        )
        .unwrap();
        assert_eq!(again, first);
    }
    assert_eq!(registry.reader(first).notify_meta.uid, 1);
    assert_eq!(registry.reader(first).file_path, path());
    assert_eq!(
        listener.notify_path("/data/1.csv", 3),
        vec![NotifyReport {
            uid: 1,
            event: NotifyEventData { event: NotifyEvent::WriteEvent, last_notify_time: 3 },
            delivered: true,
        }]
    );
    assert!(registry.reader(first).notify_meta.receiver.try_recv().is_ok());
}

#[test]
fn the_two_modes_of_a_file_share_its_os_watch() {
    let mut listener = CmonListener::new();
    let mut registry = ReaderRegistry::<TestCsvStruct1, Pred1, CSV>::new();
    let incremental = registry
        .get_or_create(&mut listener, TAG_1, &path(), true, EncType::UTF8, OPTIONS, WatchInstall::Installed)
        .unwrap();
    assert!(!registry.needs_os_watch(&listener, &path(), false));
    let full = registry
        .get_or_create(
            &mut listener,
            TAG_1,
            &path(),
            false,
            EncType::UTF8,
            OPTIONS,
            WatchInstall::NotAttempted,
        )
        .unwrap();
    assert_ne!(incremental, full);
    assert!(registry.reader(incremental).is_increment);
    assert!(!registry.reader(full).is_increment);
    assert_eq!(registry.reader(incremental).notify_meta.uid, 1);
    assert_eq!(registry.reader(full).notify_meta.uid, 2);
    assert_eq!(registry.find(&path(), true), Some(incremental));
    assert_eq!(registry.find(&path(), false), Some(full));
    assert_eq!(registry.find(&"/data/2.csv".to_string(), true), None);
}

#[test]
fn reader_is_not_made_when_the_watch_cannot_be_installed() {
    let mut listener = CmonListener::new();
    let mut registry = ReaderRegistry::<TestCsvStruct1, Pred1, CSV>::new();
    let refused = get_or_create_csv_reader(
        &mut registry,
        &mut listener,
        TAG_1,
        &path(),
        true,
        EncType::UTF8,
        OPTIONS,
        WatchInstall::Failed("No such file or directory".to_string()),
    );
    match refused {
        Err(ReaderError::IoError(detail)) => assert_eq!(detail, "No such file or directory"),
        _ => panic!("a reader was made for a file that cannot be watched"),
    }
    assert_eq!(registry.find(&path(), true), None);
    assert!(registry.needs_os_watch(&listener, &path(), true));
    let skipped = get_or_create_csv_reader(
        &mut registry,
        &mut listener,
        TAG_1,
        &path(),
        true,
        EncType::UTF8,
        OPTIONS,
        WatchInstall::NotAttempted,
    );
    assert!(matches!(skipped, Err(ReaderError::IoError(_))));
}

#[test]
fn two_record_types_have_two_registries_and_two_readers() {
    let mut listener = CmonListener::new();
    let mut registry_a = ReaderRegistry::<TestCsvStruct1, Pred1, CSV>::new();
    let mut registry_b = ReaderRegistry::<TestCsvStruct2, Pred2, CSV>::new();
    let a = get_or_create_csv_reader(
        &mut registry_a,
        &mut listener,
        TAG_1,
        &path(),
        true,
        EncType::UTF8,
        OPTIONS,
        WatchInstall::Installed,
    )
    .unwrap();
    assert!(!registry_b.needs_os_watch(&listener, &path(), true));
    let b = get_or_create_csv_reader(
        &mut registry_b,
        &mut listener,
        TAG_2,
        &path(),
        true,
        EncType::UTF8,
        OPTIONS,
        WatchInstall::NotAttempted,
    )
    .unwrap();
    assert_eq!(registry_a.reader(a).notify_meta.uid, 1);
    assert_eq!(registry_b.reader(b).notify_meta.uid, 2);
    assert_eq!(listener.notify_path("/data/1.csv", 1).len(), 2);
}

#[test]
fn remove_ends_the_subscription_and_keeps_the_reader() {
    let mut listener = CmonListener::new();
    let mut registry = ReaderRegistry::<TestCsvStruct1, Pred1, CSV>::new();
    let at = get_or_create_csv_reader(
        &mut registry,
        &mut listener,
        TAG_1,
        &path(),
        true,
        EncType::UTF8,
        OPTIONS,
        WatchInstall::Installed,
    )
    .unwrap();
    let first = registry.reader_mut(at).subscribe("0", |v, d| (d.a % 2).to_string() == *v);
    let second = registry.reader_mut(at).subscribe("1", |v, d| (d.a % 2).to_string() == *v);
    assert_eq!(remove_csv_reader(&mut registry, TAG_1, first.cert_key, true, &path()).unwrap(), false);
    assert!(matches!(
        remove_csv_reader(&mut registry, TAG_1, first.cert_key, true, &path()),
        Err(ReaderError::NoSuchCert)
    ));
    assert_eq!(remove_csv_reader(&mut registry, TAG_1, second.cert_key, true, &path()).unwrap(), true);
    assert_eq!(registry.find(&path(), true), Some(at));
    assert!(registry.reader(at).empty());
    assert!(!registry.reader(at).is_running);
    assert!(!listener.needs_os_watch("/data/1.csv"));
    let again = get_or_create_csv_reader(
        &mut registry,
        &mut listener,
        TAG_1,
        &path(),
        true,
        EncType::UTF8,
        OPTIONS,
        WatchInstall::NotAttempted,
    )
    .unwrap();
    assert_eq!(again, at);
}

#[test]
fn remove_without_reader_fails() {
    let mut listener = CmonListener::new();
    let mut registry = ReaderRegistry::<TestCsvStruct1, Pred1, CSV>::new();
    assert!(matches!(
        remove_csv_reader(&mut registry, TAG_1, 1, true, &path()),
        Err(ReaderError::NoSuchReader)
    ));
    get_or_create_csv_reader(
        &mut registry,
        &mut listener,
        TAG_1,
        &path(),
        true,
        EncType::UTF8,
        OPTIONS,
        WatchInstall::Installed,
    )
    .unwrap();
    assert!(matches!(
        remove_csv_reader(&mut registry, TAG_1, 1, false, &path()),
        Err(ReaderError::NoSuchReader)
    ));
    assert!(matches!(
        remove_csv_reader(&mut registry, TAG_1, 1, true, &path()),
        Err(ReaderError::NoSuchCert)
    ));
}

#[test]
fn table_readers_have_their_own_registry() {
    let mut listener = CmonListener::new();
    let mut registry = ReaderRegistry::<u32, fn(&String, &u32) -> bool, DBF>::new();
    let table = "/data/t.dbf".to_string();
    let at = get_or_create_dbf_reader(
        &mut registry,
        &mut listener,
        TAG_1,
        &table,
        true,
        EncType::GBK,
        OPTIONS,
        WatchInstall::Installed,
    )
    .unwrap();
    let again = get_or_create_dbf_reader(
        &mut registry,
        &mut listener,
        TAG_1,
        &table,
        true,
        EncType::GBK,
        OPTIONS,
        WatchInstall::NotAttempted,
    )
    .unwrap();
    assert_eq!(at, again);
    let subscription = registry.reader_mut(at).subscribe("", |_, _| true);
    assert_eq!(remove_dbf_reader(&mut registry, TAG_1, subscription.cert_key, true, &table).unwrap(), true);
    assert!(matches!(
        remove_dbf_reader(&mut registry, TAG_1, subscription.cert_key, true, &"/x.dbf".to_string()),
        Err(ReaderError::NoSuchReader)
    ));
}

#[test]
fn type_conflict_on_the_same_path() {
    let mut listener = CmonListener::new();
    let mut registry = ReaderRegistry::<TestCsvStruct1, Pred1, CSV>::new();
    let made = get_or_create_csv_reader(
        &mut registry,
        &mut listener,
        TAG_1,
        &path(),
        true,
        EncType::UTF8,
        OPTIONS,
        WatchInstall::Installed,
    )
    .unwrap();
    let conflict = get_or_create_csv_reader(
        &mut registry,
        &mut listener,
        TAG_2,
        &path(),
        true,
        EncType::UTF8,
        OPTIONS,
        WatchInstall::NotAttempted,
    );
    assert!(matches!(conflict, Err(ReaderError::TypeMismatch)));
    assert!(matches!(
        remove_csv_reader(&mut registry, TAG_2, 1, true, &path()),
        Err(ReaderError::TypeMismatch)
    ));
    let again = get_or_create_csv_reader(
        &mut registry,
        &mut listener,
        TAG_1,
        &path(),
        true,
        EncType::UTF8,
        OPTIONS,
        WatchInstall::NotAttempted,
    )
    .unwrap();
    assert_eq!(again, made);
    assert_eq!(listener.notify_path("/data/1.csv", 1).len(), 1);
    let other_mode = get_or_create_csv_reader(
        &mut registry,
        &mut listener,
        TAG_2,
        &path(),
        false,
        EncType::UTF8,
        OPTIONS,
        WatchInstall::NotAttempted,
    );
    assert!(other_mode.is_ok());
    assert_eq!(ReaderError::TypeMismatch.message(), "reader was made for another record type");
}
