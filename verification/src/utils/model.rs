//! Events, watch handles and the constants that fix observable behaviour.

use vstd::prelude::*;
use crossbeam::channel::{Receiver, Sender};
use crate::utils::channel::bounded_channel;

verus! {

/// What a reader is told about its file.
#[derive(Debug, Clone, Copy, PartialEq, Eq, Structural)]
pub enum NotifyEvent {
    /// The file grew or its content changed.
    WriteEvent,
    /// A synthetic wake-up, kept for polling fallbacks.
    ScheduleEvent,
    /// The reader is to leave its loop.
    StopEvent,
}

/// One notification: its kind and the time, in milliseconds, at which it was
/// raised.
#[derive(Debug, Clone, Copy, PartialEq, Eq, Structural)]
pub struct NotifyEventData {
    pub event: NotifyEvent,
    pub last_notify_time: u64,
}

/// The identity of one watch handle.
pub type NotifyMetaUid = i64;

/// How often a read is attempted before an event is given up.
pub const MAX_READ_RETRY_TIME: i32 = 5;

/// The shortest time, in milliseconds, between two reads of one file.
pub const MIN_READ_INTERVAL: u64 = 1;

/// The pause, in milliseconds, taken when a read comes too soon after the last.
pub const READ_PAUSE_MS: u64 = 1;

/// The pause, in milliseconds, before a read is tried again.
pub const RETRY_SLEEP_MS: u64 = 500;

/// The position that asks for a read from the current position to the end,
/// delivered to every subscriber.
pub const READ_FROM_HEAD_FLAG: u64 = u64::MAX;

/// Capacity of the channel that carries raw events into a listener.
pub const LISTENER_CHANNEL_CAPACITY: usize = 16;

/// Capacity of the mailbox of one watch handle.
pub const NOTIFY_MAILBOX_CAPACITY: usize = 3;

/// Capacity of the channel of one subscriber.
pub const SUBSCRIBER_CHANNEL_CAPACITY: usize = 16;

/// Capacity of the channel that carries read requests to a reader.
pub const READ_REQUEST_CAPACITY: usize = 4;

/// Poll interval, in milliseconds, suggested for incremental readers.
pub const DEFAULT_INCR_POLL_INTERVAL: u64 = 256;

/// Poll interval, in milliseconds, suggested for full readers.
pub const DEFAULT_FULL_POLL_INTERVAL: u64 = 512;

/// The longest poll interval, in milliseconds.
pub const DEFAULT_MAX_POLL_INTERVAL: u64 = 1024;

/// The identity that follows `uid`: one more, and from the largest value on
/// to the smallest.
pub open spec fn next_uid(uid: NotifyMetaUid) -> NotifyMetaUid {
    if uid == i64::MAX {
        i64::MIN
    } else {
        (uid + 1) as i64
    }
}

/// The identity drawn `k` draws after `start` was drawn.
pub open spec fn uid_after(start: NotifyMetaUid, k: nat) -> NotifyMetaUid
    decreases k,
{
    if k == 0 {
        start
    } else {
        next_uid(uid_after(start, (k - 1) as nat))
    }
}

/// The source of watch identities: it hands out 1, 2, 3, ... in turn.
pub struct UidCounter {
    next: NotifyMetaUid,
}

impl UidCounter {
    /// The identity that the next draw returns.
    pub closed spec fn peek(&self) -> NotifyMetaUid {
        self.next
    }

    /// A counter whose first identity is 1.
    pub fn new() -> (counter: UidCounter)
        ensures
            counter.peek() == 1,
    {
        UidCounter { next: 1 }
    }
}

/// Draws the next identity from `counter`.
pub fn gen_uid(counter: &mut UidCounter) -> (uid: NotifyMetaUid)
    ensures
        uid == old(counter).peek(),
        final(counter).peek() == next_uid(uid),
{
    let uid = counter.next;
    counter.next = if uid == i64::MAX {
        i64::MIN
    } else {
        uid + 1
    };
    uid
}

/// Any two of the first 2^64 identities drawn from one counter differ: an
/// identity is not handed out twice before the counter has gone through every
/// value.
pub proof fn lemma_uids_do_not_repeat(start: NotifyMetaUid, i: nat, j: nat)
    requires
        i < j,
        j < 0x1_0000_0000_0000_0000,
    ensures
        uid_after(start, i) != uid_after(start, j),
{
    lemma_uid_after_closed_form(start, i);
    lemma_uid_after_closed_form(start, j);
}

/// The identity after `k` draws is `start + k`, taken back into range.
proof fn lemma_uid_after_closed_form(start: NotifyMetaUid, k: nat)
    requires
        k < 0x1_0000_0000_0000_0000,
    ensures
        uid_after(start, k) == if start + k <= i64::MAX {
            start + k
        } else {
            start + k - 0x1_0000_0000_0000_0000
        },
    decreases k,
{
    if k > 0 {
        lemma_uid_after_closed_form(start, (k - 1) as nat);
    }
}

/// The handle that a listener hands back for one watch of one file: its
/// identity, the path, and the mailbox into which the listener drops events.
#[derive(Debug)]
pub struct NotifyMeta {
    pub uid: NotifyMetaUid,
    pub file_path: String,
    pub last_bytes: u64,
    pub cur_bytes: u64,
    pub sender: Sender<NotifyEventData>,
    pub receiver: Receiver<NotifyEventData>,
}

impl Clone for NotifyMeta {
    /// A second handle with the same identity, path and mailbox.
    fn clone(&self) -> (other: Self)
        ensures
            other == *self,
    {
        NotifyMeta {
            uid: self.uid,
            file_path: self.file_path.clone(),
            last_bytes: self.last_bytes,
            cur_bytes: self.cur_bytes,
            sender: self.sender.clone(),
            receiver: self.receiver.clone(),
        }
    }
}

impl NotifyMeta {
    /// A handle for `file_path` with a fresh identity and an empty mailbox.
    pub fn new(counter: &mut UidCounter, file_path: String) -> (meta: NotifyMeta)
        ensures
            meta.uid == old(counter).peek(),
            final(counter).peek() == next_uid(meta.uid),
            meta.file_path == file_path,
            meta.last_bytes == 0,
            meta.cur_bytes == 0,
    {
        let (sender, receiver) = bounded_channel(NOTIFY_MAILBOX_CAPACITY);
        NotifyMeta { uid: gen_uid(counter), file_path, last_bytes: 0, cur_bytes: 0, sender, receiver }
    }
}

/// The text encoding of a file.
#[derive(Debug, Clone, Copy, PartialEq, Eq, Structural)]
pub enum EncType {
    GBK,
    UTF8,
}

/// Marks a reader of comma-separated text; its positions are byte offsets.
pub struct CSV;

/// Marks a reader of xBase tables; its positions are record counts.
pub struct DBF;

/// A file format that a reader can be made for.
pub trait FileType {
    /// The name of the format.
    spec fn name() -> Seq<char>;

    /// The name of the format, for logs.
    fn file_type() -> (name: &'static str)
        ensures
            name@ == Self::name(),
    ;
}

impl FileType for CSV {
    open spec fn name() -> Seq<char> {
        "csv"@
    }

    fn file_type() -> (name: &'static str) {
        "csv"
    }
}

impl FileType for DBF {
    open spec fn name() -> Seq<char> {
        "dbf"@
    }

    fn file_type() -> (name: &'static str) {
        "dbf"
    }
}

} // verus!
