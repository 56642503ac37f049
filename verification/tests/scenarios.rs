use crossbeam::channel::Select;
use pb_file_reader::notify::cmon_listener::{CmonListener, RawEvent, RawEventKind, WatchInstall};
use pb_file_reader::reader::csv_reader::read_csv_data;
use pb_file_reader::reader::manager::{
    get_or_create_csv_reader, remove_csv_reader, ReaderRegistry,
};
use pb_file_reader::reader::msg_dispatcher::Record;
use pb_file_reader::reader::subscribe_reader::{
    retry_read_from_seek, ReadPlan, ReadRunner, ReaderEvent, ReaderOptions, RetryDecision,
};
use pb_file_reader::utils::model::{
    EncType, NotifyEvent, CSV, MAX_READ_RETRY_TIME, READ_FROM_HEAD_FLAG,
};

#[allow(dead_code)]
#[derive(Debug, Clone, PartialEq)]
struct TestCsvStruct1 {
    a: i32,
    b: i32,
    c: i64,
}

#[allow(dead_code)]
#[derive(Debug, Clone, PartialEq)]
struct TestCsvStruct2 {
    a: i32,
    b: i32,
    c: i64,
}

type Pred1 = fn(&String, &TestCsvStruct1) -> bool;
type Pred2 = fn(&String, &TestCsvStruct2) -> bool;
type Registry1 = ReaderRegistry<TestCsvStruct1, Pred1, CSV>;
type Registry2 = ReaderRegistry<TestCsvStruct2, Pred2, CSV>;

const TAG_1: u64 = 1;
const TAG_2: u64 = 2;

const OPTIONS: ReaderOptions =
    ReaderOptions { before_register_data: true, reset_seek_when_err: false };

fn numbers(fields: &Vec<String>) -> Result<(i32, i32, i64), String> {
    if fields.len() != 3 {
        return Err(format!("expected 3 fields, found {}", fields.len()));
    }
    let a = fields[0].parse::<i32>().map_err(|e| e.to_string())?;
    let b = fields[1].parse::<i32>().map_err(|e| e.to_string())?;
    let c = fields[2].parse::<i64>().map_err(|e| e.to_string())?;
    Ok((a, b, c))
}

fn decode_1(fields: &Vec<String>) -> Result<TestCsvStruct1, String> {
    numbers(fields).map(|(a, b, c)| TestCsvStruct1 { a, b, c })
}

fn decode_2(fields: &Vec<String>) -> Result<TestCsvStruct2, String> {
    numbers(fields).map(|(a, b, c)| TestCsvStruct2 { a, b, c })
}

/// The file as it stands after `rows` rows were written below the header.
fn file_with(rows: i32) -> Vec<u8> {
    let mut file = b"a,b,c\n".to_vec();
    for n in 1..=rows {
        file.extend_from_slice(format!("{},{},{}\n", n, n, n).as_bytes());
    }
    file
}

/// What the loop of the reader at `at` does for one wake-up, with `file` as
/// the content of its file.
fn turn_1(registry: &mut Registry1, at: usize, event: ReaderEvent, file: &[u8]) {
    let reader = registry.reader_mut(at);
    match reader.run(event) {
        ReadPlan::Tail { from, .. } => {
            let tail = file[from as usize..].to_vec();
            let (pos_after, batch, ok) =
                read_csv_data(&tail, from, reader.enc_type, &decode_1).unwrap();
            let decision =
                retry_read_from_seek(from, pos_after, batch.len(), ok, 0, MAX_READ_RETRY_TIME);
            if decision == RetryDecision::Accept {
                reader.finish_read(from, pos_after, batch);
            }
        },
        ReadPlan::CatchUp { cert_key, upto } => {
            let region = file[..upto as usize].to_vec();
            let batch = pb_file_reader::reader::csv_reader::read_to_seek(
                &region,
                reader.enc_type,
                &decode_1,
            )
            .unwrap();
            reader.msg_dispatcher.dispatch_single(batch, cert_key);
        },
        ReadPlan::Stop => {},
    }
}

fn turn_2(registry: &mut Registry2, at: usize, event: ReaderEvent, file: &[u8]) {
    let reader = registry.reader_mut(at);
    if let ReadPlan::Tail { from, .. } = reader.run(event) {
        let tail = file[from as usize..].to_vec();
        let (pos_after, batch, ok) =
            read_csv_data(&tail, from, reader.enc_type, &decode_2).unwrap();
        if retry_read_from_seek(from, pos_after, batch.len(), ok, 0, MAX_READ_RETRY_TIME)
            == RetryDecision::Accept
        {
            reader.finish_read(from, pos_after, batch);
        }
    }
}

/// Serves what waits in the mailboxes of the reader at `at`.
fn serve_1(registry: &mut Registry1, at: usize, file: &[u8]) {
    while let Ok((cert_key, seek_hint)) = registry.reader(at).inner_chan.1.try_recv() {
        turn_1(registry, at, ReaderEvent::ReadRequest(cert_key, seek_hint), file);
    }
    while let Ok(data) = registry.reader(at).notify_meta.receiver.try_recv() {
        turn_1(registry, at, ReaderEvent::Notify(data), file);
    }
}

fn serve_2(registry: &mut Registry2, at: usize, file: &[u8]) {
    while let Ok((cert_key, seek_hint)) = registry.reader(at).inner_chan.1.try_recv() {
        turn_2(registry, at, ReaderEvent::ReadRequest(cert_key, seek_hint), file);
    }
    while let Ok(data) = registry.reader(at).notify_meta.receiver.try_recv() {
        turn_2(registry, at, ReaderEvent::Notify(data), file);
    }
}

fn changed(path: &str) -> Vec<RawEvent> {
    vec![RawEvent { kind: RawEventKind::DataContent, paths: vec![path.to_string()] }]
}

#[test]
fn test_single_thread_csv_manager() {
    let path = "/Users/yaohui/projects/pb_file_reader/test/1.csv".to_string();
    let mut listener = CmonListener::new();
    listener.__init();
    let mut registry = Registry1::new();
    let reader = get_or_create_csv_reader(
        &mut registry,
        &mut listener,
        TAG_1,
        &path,
        true,
        EncType::UTF8,
        OPTIONS,
        WatchInstall::Installed,
    );
    match reader {
        Ok(at) => {
            let subscription = registry.reader_mut(at).subscribe("0", |_v, _data| true);
            let recv_chan = subscription.receiver;
            let mut cnt = 1;
            let mut written = 0;
            loop {
                cnt += 1;
                written += 2;
                let file = file_with(written);
                listener.event_loop(&changed(&path));
                serve_1(&mut registry, at, &file);
                match recv_chan.try_recv() {
                    Ok(data) => {
                        println!("recv len {:?}", data.len());
                        assert_eq!(data.len(), 2);
                        assert_eq!(data[1], Ok(TestCsvStruct1 { a: written, b: written, c: written as i64 }));
                    },
                    Err(err) => {
                        panic!("err:{:?}", err);
                    },
                }
                if cnt > 10 {
                    break;
                }
            }
            assert_eq!(registry.reader(at).seek_pos, file_with(20).len() as u64);
        },
        Err(err) => {
            panic!("err:{:?}", err);
        },
    }
}

#[test]
fn test_multiple_csv_manager() {
    let path_1 = "/Users/yaohui/projects/pb_file_reader/test/1.csv".to_string();
    let mut listener = CmonListener::new();
    listener.__init();
    let mut registry = Registry1::new();
    let parity: Pred1 = |verify, data| (data.a % 2).to_string() == *verify;
    let everything: Pred1 = |_verify, _data| true;
    let mut handles = Vec::new();
    for (verify, pred) in [("0", parity), ("1", parity), ("1", everything)] {
        let install = if registry.needs_os_watch(&listener, &path_1, true) {
            WatchInstall::Installed
        } else {
            WatchInstall::NotAttempted
        };
        let at = get_or_create_csv_reader(
            &mut registry,
            &mut listener,
            TAG_1,
            &path_1,
            true,
            EncType::UTF8,
            OPTIONS,
            install,
        )
        .unwrap();
        let subscription = registry.reader_mut(at).subscribe(verify, pred);
        println!("get cert key: {}", subscription.cert_key);
        handles.push((at, subscription.cert_key, subscription.receiver, 1));
    }
    assert!(handles.iter().all(|handle| handle.0 == handles[0].0));
    let at = handles[0].0;
    let mut written = 0;
    while handles.iter().any(|handle| handle.3 <= 10) {
        written += 2;
        let file = file_with(written);
        listener.event_loop(&changed(&path_1));
        serve_1(&mut registry, at, &file);
        for (name, handle) in ["h1", "h2", "h3"].iter().zip(handles.iter_mut()) {
            match handle.2.try_recv() {
                Ok(data) => {
                    println!("{}:===> len={}", name, data.len());
                    assert_eq!(data.len(), if *name == "h3" { 2 } else { 1 });
                    handle.3 += 1;
                },
                Err(e) => {
                    panic!("{:?}", e);
                },
            }
        }
    }
    for (index, handle) in handles.iter().enumerate() {
        let ended = remove_csv_reader(&mut registry, TAG_1, handle.1, true, &path_1).unwrap();
        assert_eq!(ended, index == 2);
    }
    assert!(!registry.reader(at).is_running);
}

#[test]
fn test_multile_csv_reader() {
    let file_1 = "/Users/yaohui/projects/pb_file_reader/test/1.csv".to_string();
    let file_2 = "/Users/yaohui/projects/pb_file_reader/test/2.csv".to_string();

    let verify_1 = "0";
    let verify_2 = "1";

    let is_crement = true;
    let mut listener = CmonListener::new();
    listener.__init();
    let mut registry_1 = Registry1::new();
    let mut registry_2 = Registry2::new();
    let csv_reader_1 = get_or_create_csv_reader(
        &mut registry_1,
        &mut listener,
        TAG_1,
        &file_1,
        is_crement,
        EncType::UTF8,
        OPTIONS,
        WatchInstall::Installed,
    );
    let csv_reader_2 = get_or_create_csv_reader(
        &mut registry_2,
        &mut listener,
        TAG_2,
        &file_2,
        is_crement,
        EncType::UTF8,
        OPTIONS,
        WatchInstall::Installed,
    );
    let reader1 = csv_reader_1.unwrap();
    let reader2 = csv_reader_2.unwrap();

    let subscription_1 = registry_1.reader_mut(reader1).subscribe(verify_1, |verify_1, data| -> bool {
        (data.a % 2).to_string() == verify_1.to_string()
    });
    let subscription_2 = registry_2.reader_mut(reader2).subscribe(verify_2, |verify_2, data| -> bool {
        (data.a % 2).to_string() == verify_2.to_string()
    });
    let (cert_key1, recv_chan1) = (subscription_1.cert_key, subscription_1.receiver);
    let (cert_key2, recv_chan2) = (subscription_2.cert_key, subscription_2.receiver);

    let content = file_with(5);
    listener.event_loop(&changed(&file_1));
    listener.event_loop(&changed(&file_2));
    serve_1(&mut registry_1, reader1, &content);
    serve_2(&mut registry_2, reader2, &content);

    let mut selector = Select::new();
    let chan1_idx = selector.recv(&recv_chan1);
    let chan2_idx = selector.recv(&recv_chan2);
    let mut seen_1: Vec<i32> = Vec::new();
    let mut seen_2: Vec<i32> = Vec::new();
    while let Ok(select_idx) = selector.try_select() {
        match select_idx.index() {
            i if i == chan1_idx => match select_idx.recv(&recv_chan1) {
                Ok(data_list) => {
                    println!("chan1, recv_len={:?}", data_list.len());
                    for data in data_list {
                        seen_1.push(data.unwrap().a);
                    }
                },
                Err(err) => panic!("{:?}", err),
            },
            i if i == chan2_idx => match select_idx.recv(&recv_chan2) {
                Ok(data_list) => {
                    println!("chan2, recv_len={:?}", data_list.len());
                    for data in data_list {
                        seen_2.push(data.unwrap().a);
                    }
                },
                Err(err) => panic!("{:?}", err),
            },
            _ => unreachable!(),
        }
    }
    assert_eq!(seen_1, vec![2, 4]);
    assert_eq!(seen_2, vec![1, 3, 5]);
    assert_eq!(remove_csv_reader(&mut registry_1, TAG_1, cert_key1, is_crement, &file_1).unwrap(), true);
    assert_eq!(remove_csv_reader(&mut registry_2, TAG_2, cert_key2, is_crement, &file_2).unwrap(), true);
}

#[test]
fn test_listen() {
    println!("begin");
    coarsetime::Clock::set_recent_since_epoch(coarsetime::Duration::from_secs(1_700_000_000));
    let path_str = "/Users/yaohui/projects/pb_file_reader/test/data.csv";
    let mut listener = CmonListener::new();
    assert!(listener.__init());
    match listener.__add_watch(path_str.to_string(), WatchInstall::Installed) {
        Ok(meta) => {
            println!("begin listen");
            let mut count = 0;
            while count <= 10086 {
                count += 1;
                listener.event_loop(&changed(path_str));
                match meta.receiver.try_recv() {
                    Ok(event) => {
                        assert_eq!(event.event, NotifyEvent::WriteEvent);
                        assert_eq!(event.last_notify_time, 1_700_000_000_000);
                    },
                    Err(e) => {
                        panic!("{:?}", e);
                    },
                }
            }
            assert_eq!(count, 10087);
            assert!(meta.receiver.try_recv().is_err());
        },
        Err(e) => {
            panic!("err: {:?}", e)
        },
    }
}

#[test]
fn head_request_flag_is_the_largest_position() {
    let mut listener = CmonListener::new();
    let mut registry = Registry1::new();
    let path = "/data/1.csv".to_string();
    let at = get_or_create_csv_reader(
        &mut registry,
        &mut listener,
        TAG_1,
        &path,
        true,
        EncType::UTF8,
        OPTIONS,
        WatchInstall::Installed,
    )
    .unwrap();
    let subscription = registry.reader_mut(at).subscribe("", |_v, _d| true);
    let waiting: Vec<(i32, u64)> = registry.reader(at).inner_chan.1.try_iter().collect();
    assert_eq!(waiting, vec![(subscription.cert_key, READ_FROM_HEAD_FLAG)]);
    let batch: Vec<Record<TestCsvStruct1>> = Vec::new();
    assert!(registry.reader_mut(at).finish_read(0, 0, batch).iter().all(|r| !r.delivered));
}
