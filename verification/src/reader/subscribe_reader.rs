//! The reader of one file: its position, its subscriptions, and what it does
//! on each wake-up.
//!
//! The reader decides; its caller waits, sleeps and reads the file. On every
//! wake-up the caller asks [`SubsReader::read_file_loop`] what is to be done,
//! does it, asks [`retry_read_from_seek`] whether the read is to be tried
//! again, and hands a read that was accepted to [`SubsReader::finish_read`].

use vstd::prelude::*;
use std::collections::HashMap;
use std::marker::PhantomData;
use crossbeam::channel::{Receiver, Sender};
use crate::reader::msg_dispatcher::{
    accounts_for,
    next_key,
    owed,
    removed,
    total,
    CertKeyT,
    MsgDispatcher,
    Record,
    SendReport,
};
use crate::utils::channel::{bounded_channel, offer};
use crate::utils::error::ReaderError;
use crate::utils::model::{
    EncType,
    FileType,
    NotifyEvent,
    NotifyEventData,
    NotifyMeta,
    CSV,
    DBF,
    MIN_READ_INTERVAL,
    READ_FROM_HEAD_FLAG,
    READ_PAUSE_MS,
    READ_REQUEST_CAPACITY,
    RETRY_SLEEP_MS,
    SUBSCRIBER_CHANNEL_CAPACITY,
};
use crate::utils::timer::get_coarse_timestamp_ms;

verus! {

broadcast use vstd::std_specs::hash::group_hash_axioms;

/// What a reader was built to do beyond tailing.
#[derive(Debug, Clone, Copy, PartialEq, Eq, Structural)]
pub struct ReaderOptions {
    /// A new subscriber is also sent what the file held before it subscribed.
    pub before_register_data: bool,
    /// A failed read of a record-counted file sets the position back to 0.
    pub reset_seek_when_err: bool,
}

/// What woke the reader.
#[derive(Debug, Clone, Copy, PartialEq, Eq, Structural)]
pub enum ReaderEvent {
    /// A notification from the listener.
    Notify(NotifyEventData),
    /// A read request: the subscriber it is for, and up to where to read.
    ReadRequest(CertKeyT, u64),
}

/// What the reader is to do next.
#[derive(Debug, Clone, Copy, PartialEq, Eq, Structural)]
pub enum ReadPlan {
    /// Leave the loop.
    Stop,
    /// Pause for `pause_ms` milliseconds, then parse the file from `from` to
    /// its end, for every subscriber.
    Tail { from: u64, pause_ms: u64 },
    /// Parse the file from its start up to `upto`, for `cert_key` alone.
    CatchUp { cert_key: CertKeyT, upto: u64 },
}

/// What follows one attempt to read.
#[derive(Debug, Clone, Copy, PartialEq, Eq, Structural)]
pub enum RetryDecision {
    /// The read stands: hand it to the reader.
    Accept,
    /// Sleep for `sleep_ms` milliseconds and read again; `retries` attempts
    /// have failed so far.
    Retry { retries: i32, sleep_ms: u64 },
    /// Drop the event; the next one starts afresh.
    GiveUp,
}

/// A read request as it was put to the reader's own channel.
#[derive(Debug, Clone, Copy, PartialEq, Eq, Structural)]
pub struct ReadRequest {
    /// The subscriber that asks.
    pub cert_key: CertKeyT,
    /// Up to where to read, or `READ_FROM_HEAD_FLAG`.
    pub seek_hint: u64,
    /// Whether the channel took the request.
    pub sent: bool,
}

/// What a new subscriber gets back.
#[verifier::reject_recursive_types(T)]
pub struct Subscription<T> {
    /// The key under which to unsubscribe.
    pub cert_key: CertKeyT,
    /// Where its batches arrive.
    pub receiver: Receiver<Vec<Record<T>>>,
    /// Whether the reader was idle, so that its loop is to be started now.
    pub start_loop: bool,
    /// The read request that was made to catch the subscriber up, if any.
    pub request: Option<ReadRequest>,
}

/// The request that catches a new subscriber up. The first subscriber of a
/// reader asks for a read from the head, which reaches everyone; a later one
/// asks for the part of the file that was read before it came, for itself
/// alone, and for nothing where nothing was read yet.
pub open spec fn catch_up_hint(enabled: bool, head_done: bool, pos: u64) -> Option<u64> {
    if !enabled {
        None
    } else if !head_done {
        Some(READ_FROM_HEAD_FLAG)
    } else if pos != 0 {
        Some(pos)
    } else {
        None
    }
}

/// Whether a notification raised at `raised` comes too soon after the read at
/// `last_read`.
pub open spec fn too_soon(raised: u64, last_read: u64) -> bool {
    raised < last_read + MIN_READ_INTERVAL
}

/// What a reader at position `seek_pos` is to do on `event`.
pub open spec fn planned(
    is_running: bool,
    seek_pos: u64,
    last_read: u64,
    event: ReaderEvent,
) -> ReadPlan {
    if !is_running {
        ReadPlan::Stop
    } else {
        match event {
            ReaderEvent::Notify(data) => match data.event {
                NotifyEvent::StopEvent => ReadPlan::Stop,
                _ => ReadPlan::Tail {
                    from: seek_pos,
                    pause_ms: if too_soon(data.last_notify_time, last_read) {
                        READ_PAUSE_MS
                    } else {
                        0
                    },
                },
            },
            ReaderEvent::ReadRequest(cert_key, seek_hint) => if seek_hint == READ_FROM_HEAD_FLAG {
                ReadPlan::Tail { from: seek_pos, pause_ms: 0 }
            } else {
                ReadPlan::CatchUp { cert_key, upto: seek_hint }
            },
        }
    }
}

/// Whether a read from `pos_before` that came back with `pos_after`, `len`
/// records and the flag `ok` has to be tried again: it brought nothing new,
/// or its last record was cut short.
pub open spec fn needs_retry(pos_before: u64, pos_after: u64, len: nat, ok: bool) -> bool {
    pos_after == pos_before || len == 0 || !ok
}

/// What follows an attempt, after `retries` failed ones, where `retry_times`
/// attempts are allowed in all.
pub open spec fn retry_outcome(
    pos_before: u64,
    pos_after: u64,
    len: nat,
    ok: bool,
    retries: i32,
    retry_times: i32,
) -> RetryDecision {
    if !needs_retry(pos_before, pos_after, len, ok) {
        RetryDecision::Accept
    } else if retries + 1 >= retry_times {
        RetryDecision::GiveUp
    } else {
        RetryDecision::Retry { retries: (retries + 1) as i32, sleep_ms: RETRY_SLEEP_MS }
    }
}

/// Decides what follows one attempt to read from `seek_pos`.
pub fn retry_read_from_seek(
    seek_pos: u64,
    new_seek_pos: u64,
    len: usize,
    is_read_success: bool,
    retries: i32,
    retry_times: i32,
) -> (decision: RetryDecision)
    ensures
        decision == retry_outcome(
            seek_pos,
            new_seek_pos,
            len as nat,
            is_read_success,
            retries,
            retry_times,
        ),
{
    if new_seek_pos == seek_pos || len == 0 || !is_read_success {
        if retries == i32::MAX || retries + 1 >= retry_times {
            RetryDecision::GiveUp
        } else {
            RetryDecision::Retry { retries: retries + 1, sleep_ms: RETRY_SLEEP_MS }
        }
    } else {
        RetryDecision::Accept
    }
}

/// A read is never tried more often than allowed: the attempt that follows
/// `retry_times - 1` failed ones is either accepted or the last.
pub proof fn lemma_attempts_are_bounded(
    pos_before: u64,
    pos_after: u64,
    len: nat,
    ok: bool,
    retries: i32,
    retry_times: i32,
)
    requires
        retries + 1 >= retry_times,
    ensures
        !(retry_outcome(pos_before, pos_after, len, ok, retries, retry_times) is Retry),
{
}

/// A read that is accepted moved the position, brought records, and ended on
/// a whole record.
pub proof fn lemma_accepted_read_is_whole(
    pos_before: u64,
    pos_after: u64,
    len: nat,
    ok: bool,
    retries: i32,
    retry_times: i32,
)
    requires
        retry_outcome(pos_before, pos_after, len, ok, retries, retry_times) is Accept,
    ensures
        pos_after != pos_before,
        len > 0,
        ok,
{
}


/// A reader of comma-separated text.
pub type CsvReader<T, P> = SubsReader<T, P, CSV>;

/// A reader of xBase tables.
pub type DbfReader<T, P> = SubsReader<T, P, DBF>;

/// Something that takes its turns in a read loop.
pub trait ReadRunner {
    /// Takes one turn: says what is to be done on `event`, which has just
    /// woken the reader.
    fn run(&mut self, event: ReaderEvent) -> ReadPlan;
}

/// The reader of one file in one mode, shared by all who subscribe to it.
#[verifier::reject_recursive_types(T)]
#[verifier::reject_recursive_types(F)]
pub struct SubsReader<T, P, F> {
    /// The file that is read.
    pub file_path: String,
    /// Whether each read takes up where the last one ended.
    pub is_increment: bool,
    /// Where the next read starts: a byte offset, or a record count.
    pub seek_pos: u64,
    /// The encoding of the file.
    pub enc_type: EncType,
    /// The subscriptions.
    pub msg_dispatcher: MsgDispatcher<T, P>,
    /// Whether the read loop is meant to run.
    pub is_running: bool,
    /// The watch through which the listener wakes this reader.
    pub notify_meta: NotifyMeta,
    /// The channel on which read requests reach the loop.
    pub inner_chan: (Sender<(CertKeyT, u64)>, Receiver<(CertKeyT, u64)>),
    /// For each subscription, the position at which it was made.
    pub register_before_pos: HashMap<CertKeyT, u64>,
    /// Whether a read from the head has been asked for.
    pub read_from_head: bool,
    /// The time of the last read that a notification set off.
    pub last_read_time: u64,
    /// What this reader does beyond tailing.
    pub options: ReaderOptions,
    /// The format of the file.
    pub format: PhantomData<F>,
}

/// Whether `after` is the reader `before` once the subscription `cert_key`
/// has been ended, and `ended` what the caller is told: the subscription is
/// gone, the loop is told to stop where none is left, and nothing else has
/// changed.
pub open spec fn after_unsubscribe<T: Clone, P: Fn(&String, &T) -> bool, F>(
    before: SubsReader<T, P, F>,
    after: SubsReader<T, P, F>,
    cert_key: CertKeyT,
    ended: Result<bool, ReaderError>,
) -> bool {
    &&& ended is Ok <==> before.msg_dispatcher.has_cert(cert_key)
    &&& ended is Ok ==> ended->Ok_0 == (after.msg_dispatcher.certs().len() == 0)
    &&& ended is Err ==> ended->Err_0 is NoSuchCert
    &&& !after.msg_dispatcher.has_cert(cert_key)
    &&& after.msg_dispatcher.wf()
    &&& after.msg_dispatcher.certs() == removed(before.msg_dispatcher.certs(), cert_key)
    &&& after.msg_dispatcher.next_cert_key() == before.msg_dispatcher.next_cert_key()
    &&& after.is_running == (before.is_running && after.msg_dispatcher.certs().len() > 0)
    &&& after.seek_pos == before.seek_pos
    &&& after.register_before_pos@ == before.register_before_pos@
    &&& after.read_from_head == before.read_from_head
    &&& after.file_path == before.file_path
    &&& after.is_increment == before.is_increment
    &&& after.enc_type == before.enc_type
    &&& after.notify_meta == before.notify_meta
    &&& after.inner_chan == before.inner_chan
    &&& after.last_read_time == before.last_read_time
    &&& after.options == before.options
}

/// Where a reader stands after it took in a read that went from `pos_before`
/// to `pos_after`: an incremental reader that stood at `pos_before` moves on
/// to `pos_after`; any other stays where it was.
pub open spec fn position_after_read(
    is_increment: bool,
    seek_pos: u64,
    pos_before: u64,
    pos_after: u64,
) -> u64 {
    if is_increment && seek_pos == pos_before {
        pos_after
    } else {
        seek_pos
    }
}

/// Where a reader that started at `start` stands after it took in `reads`,
/// each given by the position before it and the position after it.
pub open spec fn position_after_reads(is_increment: bool, start: u64, reads: Seq<(u64, u64)>) -> u64
    decreases reads.len(),
{
    if reads.len() == 0 {
        start
    } else {
        position_after_read(
            is_increment,
            position_after_reads(is_increment, start, reads.drop_last()),
            reads.last().0,
            reads.last().1,
        )
    }
}

/// The position of a reader never moves back while it takes in reads: where
/// every read ends at or after the position at which it began, as the reads
/// of an append-only file do, the reader stands after any number of them at
/// or after the place where it stood after fewer.
pub proof fn lemma_position_never_moves_back(
    is_increment: bool,
    start: u64,
    reads: Seq<(u64, u64)>,
    earlier: int,
)
    requires
        forall|i: int| 0 <= i < reads.len() ==> (#[trigger] reads[i]).0 <= reads[i].1,
        0 <= earlier <= reads.len(),
    ensures
        position_after_reads(is_increment, start, reads.take(earlier)) <= position_after_reads(
            is_increment,
            start,
            reads,
        ),
        !is_increment ==> position_after_reads(is_increment, start, reads) == start,
    decreases reads.len(),
{
    if earlier == reads.len() {
        assert(reads.take(earlier) =~= reads);
        if reads.len() > 0 {
            lemma_position_never_moves_back(
                is_increment,
                start,
                reads.drop_last(),
                reads.len() - 1,
            );
        }
    } else {
        assert(reads.drop_last().take(earlier) =~= reads.take(earlier));
        lemma_position_never_moves_back(is_increment, start, reads.drop_last(), earlier);
    }
}

/// Ending a subscription twice: whatever the first call answered, the second
/// fails, because the subscription is gone, and leaves the subscriptions as
/// the first call left them.
pub proof fn lemma_second_unsubscribe_fails<T: Clone, P: Fn(&String, &T) -> bool, F>(
    start: SubsReader<T, P, F>,
    once: SubsReader<T, P, F>,
    twice: SubsReader<T, P, F>,
    cert_key: CertKeyT,
    first: Result<bool, ReaderError>,
    second: Result<bool, ReaderError>,
)
    requires
        after_unsubscribe(start, once, cert_key, first),
        after_unsubscribe(once, twice, cert_key, second),
    ensures
        second is Err,
        second->Err_0 is NoSuchCert,
        twice.msg_dispatcher.certs() == once.msg_dispatcher.certs(),
        twice.is_running == once.is_running,
{
}

/// When the last subscription ends, the loop is told to stop: a reader
/// without subscriptions is not meant to run.
pub proof fn lemma_last_unsubscribe_stops_loop<T: Clone, P: Fn(&String, &T) -> bool, F>(
    before: SubsReader<T, P, F>,
    after: SubsReader<T, P, F>,
    cert_key: CertKeyT,
    ended: Result<bool, ReaderError>,
)
    requires
        after_unsubscribe(before, after, cert_key, ended),
        ended == Ok::<bool, ReaderError>(true),
    ensures
        !after.is_running,
        forall|event: ReaderEvent|
            planned(after.is_running, after.seek_pos, after.last_read_time, event)
                == ReadPlan::Stop,
{
}

impl<T: Clone, P: Fn(&String, &T) -> bool, F: FileType> SubsReader<T, P, F> {
    /// The subscriptions are well formed.
    pub open spec fn wf(&self) -> bool {
        self.msg_dispatcher.wf()
    }

    /// A reader of `file_path` that is woken through `notify_meta`. It starts
    /// at position 0, without subscribers, and idle.
    pub fn new(
        notify_meta: NotifyMeta,
        file_path: String,
        is_increment: bool,
        enc: EncType,
        options: ReaderOptions,
    ) -> (reader: Self)
        ensures
            reader.wf(),
            reader.file_path == file_path,
            reader.is_increment == is_increment,
            reader.seek_pos == 0,
            reader.enc_type == enc,
            reader.msg_dispatcher.certs().len() == 0,
            reader.msg_dispatcher.next_cert_key() == 1,
            !reader.is_running,
            reader.notify_meta == notify_meta,
            reader.register_before_pos@ == (Map::<CertKeyT, u64>::empty()),
            !reader.read_from_head,
            reader.last_read_time == 0,
            reader.options == options,
    {
        SubsReader {
            file_path,
            is_increment,
            seek_pos: 0,
            enc_type: enc,
            msg_dispatcher: MsgDispatcher::new(),
            is_running: false,
            notify_meta,
            inner_chan: bounded_channel(READ_REQUEST_CAPACITY),
            register_before_pos: HashMap::new(),
            read_from_head: false,
            last_read_time: 0,
            options,
            format: PhantomData,
        }
    }

    /// Sets the position back to the start of the file.
    pub fn reset_seek_pos(&mut self)
        ensures
            *final(self) == (SubsReader { seek_pos: 0, ..*old(self) }),
    {
        self.seek_pos = 0;
    }

    /// Puts the request `(cert_key, seek_hint)` to the reader's own channel.
    fn request_read(&self, cert_key: CertKeyT, seek_hint: u64) -> (request: ReadRequest)
        ensures
            request.cert_key == cert_key,
            request.seek_hint == seek_hint,
    {
        let sent = offer(&self.inner_chan.0, (cert_key, seek_hint));
        ReadRequest { cert_key, seek_hint, sent }
    }

    /// Subscribes: every record from now on that `dispatcher_func` accepts,
    /// given `verify_data`, arrives on the channel that is handed back.
    ///
    /// The subscription is installed before the position is noted, so that
    /// nothing read in between is lost to it. The first subscription of an
    /// idle reader asks for the loop to be started. Where the reader catches
    /// its subscribers up, the request for that is made here.
    pub fn subscribe(&mut self, verify_data: &str, dispatcher_func: P) -> (subscription:
        Subscription<T>)
        requires
            old(self).wf(),
            total(dispatcher_func),
        ensures
            final(self).wf(),
            subscription.cert_key == old(self).msg_dispatcher.next_cert_key(),
            final(self).msg_dispatcher.next_cert_key() == next_key(subscription.cert_key),
            final(self).msg_dispatcher.has_cert(subscription.cert_key),
            final(self).msg_dispatcher.cert(subscription.cert_key).cert_key
                == subscription.cert_key,
            final(self).msg_dispatcher.cert(subscription.cert_key).verify_data@ == verify_data@,
            final(self).msg_dispatcher.cert(subscription.cert_key).dispatcher_func
                == dispatcher_func,
            final(self).msg_dispatcher.cert(subscription.cert_key).is_running,
            final(self).msg_dispatcher.certs() == crate::reader::msg_dispatcher::installed(
                old(self).msg_dispatcher.certs(),
                final(self).msg_dispatcher.cert(subscription.cert_key),
            ),
            final(self).register_before_pos@ == old(self).register_before_pos@.insert(
                subscription.cert_key,
                old(self).seek_pos,
            ),
            final(self).is_running,
            subscription.start_loop == !old(self).is_running,
            final(self).read_from_head == (old(self).read_from_head
                || old(self).options.before_register_data),
            match catch_up_hint(
                old(self).options.before_register_data,
                old(self).read_from_head,
                old(self).seek_pos,
            ) {
                Some(seek_hint) => subscription.request is Some && subscription.request->0.cert_key
                    == subscription.cert_key && subscription.request->0.seek_hint == seek_hint,
                None => subscription.request is None,
            },
            final(self).seek_pos == old(self).seek_pos,
            final(self).file_path == old(self).file_path,
            final(self).is_increment == old(self).is_increment,
            final(self).enc_type == old(self).enc_type,
            final(self).notify_meta == old(self).notify_meta,
            final(self).inner_chan == old(self).inner_chan,
            final(self).last_read_time == old(self).last_read_time,
            final(self).options == old(self).options,
    {
        let (send_chan, recv_chan) = bounded_channel(SUBSCRIBER_CHANNEL_CAPACITY);
        let cert_key = self.msg_dispatcher.get_cert_and_subscribe(
            verify_data,
            dispatcher_func,
            send_chan,
        );
        let current_pos = self.seek_pos;
        let start_loop = !self.is_running;
        self.is_running = true;
        self.register_before_pos.insert(cert_key, current_pos);
        let request = if !self.options.before_register_data {
            None
        } else if !self.read_from_head {
            self.read_from_head = true;
            Some(self.request_read(cert_key, READ_FROM_HEAD_FLAG))
        } else if current_pos != 0 {
            Some(self.request_read(cert_key, current_pos))
        } else {
            None
        };
        Subscription { cert_key, receiver: recv_chan, start_loop, request }
    }

    /// Ends the subscription `cert_key`. `Ok(true)` says that it was the last
    /// one and that the loop is to stop. The loop is told to stop whenever no
    /// subscription is left, also where `cert_key` named none.
    pub fn unsubscribe(&mut self, cert_key: CertKeyT) -> (ended: Result<bool, ReaderError>)
        requires
            old(self).wf(),
        ensures
            after_unsubscribe(*old(self), *final(self), cert_key, ended),
    {
        let was_subscribed = self.msg_dispatcher.unsubscribe(cert_key);
        let no_subscriber = self.msg_dispatcher.no_subscriber();
        if no_subscriber {
            self.is_running = false;
        }
        if was_subscribed {
            Ok(no_subscriber)
        } else {
            Err(ReaderError::NoSuchCert)
        }
    }

    /// Whether nobody is subscribed.
    pub fn empty(&self) -> (none: bool)
        ensures
            none == (self.msg_dispatcher.certs().len() == 0),
    {
        self.msg_dispatcher.no_subscriber()
    }

    /// Asks the loop to send `cert_key` what the file held up to the position
    /// at which it subscribed. Fails for a key that never subscribed here.
    pub fn get_register_before_data(&self, cert_key: CertKeyT) -> (request: Result<
        ReadRequest,
        ReaderError,
    >)
        ensures
            request is Ok <==> self.register_before_pos@.contains_key(cert_key),
            request is Ok ==> request->Ok_0.cert_key == cert_key && request->Ok_0.seek_hint
                == self.register_before_pos@[cert_key],
            request is Err ==> request->Err_0 is NoSuchCert,
    {
        match self.register_before_pos.get(&cert_key) {
            Some(seek_pos) => Ok(self.request_read(cert_key, *seek_pos)),
            None => Err(ReaderError::NoSuchCert),
        }
    }

    /// Asks the loop to send `cert_key` what the file holds up to the current
    /// position.
    pub fn get_all_data(&self, cert_key: CertKeyT) -> (request: ReadRequest)
        ensures
            request.cert_key == cert_key,
            request.seek_hint == self.seek_pos,
    {
        self.request_read(cert_key, self.seek_pos)
    }

    /// One turn of the read loop: what is to be done on `event`, at the time
    /// `now`. A reader that is not meant to run, or is told to stop, leaves
    /// the loop. A notification sets off a read from the current position to
    /// the end of the file, after a pause where the last read was less than
    /// the minimal interval ago; so does a request for a read from the head,
    /// without the pause. Any other request sets off a read of the start of
    /// the file for one subscriber.
    pub fn read_file_loop(&mut self, event: ReaderEvent, now: u64) -> (plan: ReadPlan)
        ensures
            plan == planned(
                old(self).is_running,
                old(self).seek_pos,
                old(self).last_read_time,
                event,
            ),
            *final(self) == (SubsReader {
                last_read_time: if plan is Tail && event is Notify {
                    now
                } else {
                    old(self).last_read_time
                },
                ..*old(self)
            }),
    {
        if !self.is_running {
            return ReadPlan::Stop;
        }
        match event {
            ReaderEvent::Notify(data) => match data.event {
                NotifyEvent::StopEvent => ReadPlan::Stop,
                _ => {
                    let last = self.last_read_time;
                    let raised = data.last_notify_time;
                    let pause_ms = if raised < last || raised - last < MIN_READ_INTERVAL {
                        READ_PAUSE_MS
                    } else {
                        0
                    };
                    self.last_read_time = now;
                    ReadPlan::Tail { from: self.seek_pos, pause_ms }
                },
            },
            ReaderEvent::ReadRequest(cert_key, seek_hint) => {
                if seek_hint == READ_FROM_HEAD_FLAG {
                    ReadPlan::Tail { from: self.seek_pos, pause_ms: 0 }
                } else {
                    ReadPlan::CatchUp { cert_key, upto: seek_hint }
                }
            },
        }
    }

    /// Takes in a read that was accepted: from `pos_before` the parser came
    /// to `pos_after` and brought `batch`. An incremental reader that still
    /// stands at `pos_before` moves on to `pos_after`; any other keeps its
    /// position. The batch is dispatched to the subscribers either way.
    pub fn finish_read(&mut self, pos_before: u64, pos_after: u64, batch: Vec<Record<T>>) -> (reports:
        Vec<SendReport>)
        requires
            old(self).wf(),
        ensures
            *final(self) == (SubsReader {
                seek_pos: position_after_read(
                    old(self).is_increment,
                    old(self).seek_pos,
                    pos_before,
                    pos_after,
                ),
                ..*old(self)
            }),
            pos_before <= pos_after ==> old(self).seek_pos <= final(self).seek_pos,
            exists|plan: Seq<Seq<Record<T>>>|
                {
                    &&& accounts_for(old(self).msg_dispatcher.certs(), plan, reports@)
                    &&& forall|i: int|
                        0 <= i < old(self).msg_dispatcher.certs().len() ==> owed(
                            old(self).msg_dispatcher.certs()[i],
                            batch@,
                            #[trigger] plan[i],
                        )
                },
    {
        if self.is_increment && self.seek_pos == pos_before {
            self.seek_pos = pos_after;
        }
        self.msg_dispatcher.dispatch(batch)
    }
}

impl<T: Clone, P: Fn(&String, &T) -> bool> SubsReader<T, P, DBF> {
    /// Takes in a read that failed. Where the reader was built to start over
    /// after an error, its position goes back to 0, so that the next
    /// notification reads the table from its first record.
    pub fn read_failed(&mut self)
        ensures
            *final(self) == (SubsReader {
                seek_pos: if old(self).options.reset_seek_when_err {
                    0
                } else {
                    old(self).seek_pos
                },
                ..*old(self)
            }),
    {
        if self.options.reset_seek_when_err {
            self.seek_pos = 0;
        }
    }
}

impl<T: Clone, P: Fn(&String, &T) -> bool, F: FileType> ReadRunner for SubsReader<T, P, F> {
    /// Takes one turn of the read loop at the time of the coarse clock.
    fn run(&mut self, event: ReaderEvent) -> (plan: ReadPlan)
        ensures
            plan == planned(
                old(self).is_running,
                old(self).seek_pos,
                old(self).last_read_time,
                event,
            ),
            *final(self) == (SubsReader {
                last_read_time: final(self).last_read_time,
                ..*old(self)
            }),
            !(plan is Tail && event is Notify) ==> final(self).last_read_time == old(
                self,
            ).last_read_time,
    {
        let now = get_coarse_timestamp_ms();
        self.read_file_loop(event, now)
    }
}

/// Dispatches `data_list` to the subscribers of `msg_dispatcher`.
pub fn dispatch_data<T: Clone, P: Fn(&String, &T) -> bool>(
    msg_dispatcher: &MsgDispatcher<T, P>,
    data_list: Vec<Record<T>>,
) -> (reports: Vec<SendReport>)
    requires
        msg_dispatcher.wf(),
    ensures
        exists|plan: Seq<Seq<Record<T>>>|
            {
                &&& accounts_for(msg_dispatcher.certs(), plan, reports@)
                &&& forall|i: int|
                    0 <= i < msg_dispatcher.certs().len() ==> owed(
                        msg_dispatcher.certs()[i],
                        data_list@,
                        #[trigger] plan[i],
                    )
            },
{
    msg_dispatcher.dispatch(data_list)
}

} // verus!
