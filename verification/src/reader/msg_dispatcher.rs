//! The dispatcher: one parsed batch in, one filtered batch out for every
//! subscriber.

use vstd::prelude::*;
use crossbeam::channel::Sender;
use crate::utils::channel::offer;

verus! {

/// The key that names one subscription within one dispatcher.
pub type CertKeyT = i32;

/// One record of a batch: a parsed value, or the text of the error that took
/// its place.
pub type Record<T> = Result<T, String>;

/// One subscription: its key, its predicate with the text that the predicate
/// is given, and the channel on which its batches leave.
#[verifier::reject_recursive_types(T)]
pub struct DispatcherCert<T, P> {
    pub cert_key: CertKeyT,
    pub dispatcher_func: P,
    pub verify_data: String,
    pub is_running: bool,
    pub send_channel: Sender<Vec<Record<T>>>,
}

/// What became of one batch that was offered to one subscriber.
#[derive(Debug, Clone, Copy, PartialEq, Eq, Structural)]
pub struct SendReport {
    /// The subscriber.
    pub cert_key: CertKeyT,
    /// The number of records in its batch.
    pub len: usize,
    /// Whether its channel took the batch.
    pub delivered: bool,
}

/// The key that follows `key`: one more, and from the largest value on to the
/// smallest.
pub open spec fn next_key(key: CertKeyT) -> CertKeyT {
    if key == i32::MAX {
        i32::MIN
    } else {
        (key + 1) as i32
    }
}

/// Whether `pred` may be called on every text and every record.
pub open spec fn total<T, P: Fn(&String, &T) -> bool>(pred: P) -> bool {
    forall|text: String, value: T| #[trigger] call_requires(pred, (&text, &value))
}

/// Whether `key` names one of `certs`.
pub open spec fn has_key<T, P>(certs: Seq<DispatcherCert<T, P>>, key: CertKeyT) -> bool {
    exists|i: int| 0 <= i < certs.len() && #[trigger] certs[i].cert_key == key
}

/// The place of the cert that `key` names among `certs`.
pub open spec fn key_index<T, P>(certs: Seq<DispatcherCert<T, P>>, key: CertKeyT) -> int {
    choose|i: int| 0 <= i < certs.len() && #[trigger] certs[i].cert_key == key
}

/// No two of `certs` have the same key.
pub open spec fn distinct_keys<T, P>(certs: Seq<DispatcherCert<T, P>>) -> bool {
    forall|i: int, j: int|
        0 <= i < certs.len() && 0 <= j < certs.len() && i != j ==> #[trigger] certs[i].cert_key
            != #[trigger] certs[j].cert_key
}

/// `certs` with `cert` put in the place of the one that had its key, or added
/// at the end where none had it.
pub open spec fn installed<T, P>(
    certs: Seq<DispatcherCert<T, P>>,
    cert: DispatcherCert<T, P>,
) -> Seq<DispatcherCert<T, P>> {
    if has_key(certs, cert.cert_key) {
        certs.update(key_index(certs, cert.cert_key), cert)
    } else {
        certs.push(cert)
    }
}

/// `certs` without the one that `key` names.
pub open spec fn removed<T, P>(certs: Seq<DispatcherCert<T, P>>, key: CertKeyT) -> Seq<
    DispatcherCert<T, P>,
> {
    if has_key(certs, key) {
        certs.remove(key_index(certs, key))
    } else {
        certs
    }
}

/// Whether `sent` stands for `record` in a subscriber's batch: the same error
/// text, or a clone of the same value.
pub open spec fn stands_for<T: Clone>(record: Record<T>, sent: Record<T>) -> bool {
    match record {
        Ok(value) => sent is Ok && cloned(value, sent->Ok_0),
        Err(text) => sent is Err && sent->Err_0 == text,
    }
}

/// Whether `out` is what a subscriber with predicate `pred` and text `verify`
/// is owed of the batch `msgs`: every error, and every value on which the
/// predicate answered yes, in the order of the batch, and nothing else.
pub open spec fn selects<T: Clone, P: Fn(&String, &T) -> bool>(
    pred: P,
    verify: String,
    msgs: Seq<Record<T>>,
    out: Seq<Record<T>>,
) -> bool
    decreases msgs.len(),
{
    if msgs.len() == 0 {
        out.len() == 0
    } else {
        let kept = out.len() > 0 && stands_for(msgs.last(), out.last()) && selects(
            pred,
            verify,
            msgs.drop_last(),
            out.drop_last(),
        );
        match msgs.last() {
            Err(_) => kept,
            Ok(value) => (call_ensures(pred, (&verify, &value), true) && kept) || (call_ensures(
                pred,
                (&verify, &value),
                false,
            ) && selects(pred, verify, msgs.drop_last(), out)),
        }
    }
}

/// The error texts of a batch, in order.
pub open spec fn errors_of<T>(msgs: Seq<Record<T>>) -> Seq<String>
    decreases msgs.len(),
{
    if msgs.len() == 0 {
        Seq::empty()
    } else {
        match msgs.last() {
            Err(text) => errors_of(msgs.drop_last()).push(text),
            Ok(_) => errors_of(msgs.drop_last()),
        }
    }
}

impl<T: Clone, P: Fn(&String, &T) -> bool> DispatcherCert<T, P> {
    /// The part of `msgs` that this subscriber is owed.
    pub fn select(&self, msgs: &Vec<Record<T>>) -> (out: Vec<Record<T>>)
        requires
            total(self.dispatcher_func),
        ensures
            selects(self.dispatcher_func, self.verify_data, msgs@, out@),
    {
        let mut out: Vec<Record<T>> = Vec::new();
        let mut i: usize = 0;
        while i < msgs.len()
            invariant
                i <= msgs.len(),
                total(self.dispatcher_func),
                selects(self.dispatcher_func, self.verify_data, msgs@.take(i as int), out@),
            decreases msgs.len() - i,
        {
            let ghost before = out@;
            proof {
                assert(msgs@.take(i + 1).drop_last() =~= msgs@.take(i as int));
                assert(msgs@.take(i + 1).last() == msgs@[i as int]);
            }
            match &msgs[i] {
                Ok(value) => {
                    if (self.dispatcher_func)(&self.verify_data, value) {
                        out.push(Ok(value.clone()));
                        assert(out@.drop_last() =~= before);
                    }
                },
                Err(text) => {
                    out.push(Err(text.clone()));
                    assert(out@.drop_last() =~= before);
                },
            }
            i += 1;
        }
        assert(msgs@.take(i as int) =~= msgs@);
        out
    }
}

/// Whether `batch` is what the subscriber `cert` is owed of `msgs`: its
/// selection while it runs, nothing once it has stopped.
pub open spec fn owed<T: Clone, P: Fn(&String, &T) -> bool>(
    cert: DispatcherCert<T, P>,
    msgs: Seq<Record<T>>,
    batch: Seq<Record<T>>,
) -> bool {
    if cert.is_running {
        selects(cert.dispatcher_func, cert.verify_data, msgs, batch)
    } else {
        batch.len() == 0
    }
}

/// Whether `reports` account for `plan`, one batch for each of `certs`: each
/// report names its cert and the size of its batch, and only a batch that is
/// not empty can have been delivered.
pub open spec fn accounts_for<T, P>(
    certs: Seq<DispatcherCert<T, P>>,
    plan: Seq<Seq<Record<T>>>,
    reports: Seq<SendReport>,
) -> bool {
    &&& plan.len() == certs.len()
    &&& reports.len() == certs.len()
    &&& forall|i: int|
        0 <= i < certs.len() ==> {
            &&& (#[trigger] reports[i]).cert_key == certs[i].cert_key
            &&& reports[i].len == plan[i].len()
            &&& reports[i].delivered ==> plan[i].len() > 0
        }
}

/// The subscriptions of one reader, and the source of their keys.
#[verifier::reject_recursive_types(T)]
pub struct MsgDispatcher<T, P> {
    dispatcher_certs: Vec<DispatcherCert<T, P>>,
    subscriber_count: i32,
}

impl<T: Clone, P: Fn(&String, &T) -> bool> MsgDispatcher<T, P> {
    /// The subscriptions, in the order in which batches are offered to them.
    pub closed spec fn certs(&self) -> Seq<DispatcherCert<T, P>> {
        self.dispatcher_certs@
    }

    /// The key that the next subscription gets.
    pub closed spec fn next_cert_key(&self) -> CertKeyT {
        self.subscriber_count
    }

    /// No key names two subscriptions, and every predicate may be called on
    /// every record.
    pub open spec fn wf(&self) -> bool {
        &&& distinct_keys(self.certs())
        &&& forall|i: int|
            0 <= i < self.certs().len() ==> total((#[trigger] self.certs()[i]).dispatcher_func)
    }

    /// Whether `key` names a subscription.
    pub open spec fn has_cert(&self, key: CertKeyT) -> bool {
        has_key(self.certs(), key)
    }

    /// The subscription that `key` names.
    pub open spec fn cert(&self, key: CertKeyT) -> DispatcherCert<T, P> {
        cert_of(self.certs(), key)
    }

    /// A dispatcher without subscriptions, whose first key is 1.
    pub fn new() -> (dispatcher: Self)
        ensures
            dispatcher.wf(),
            dispatcher.certs().len() == 0,
            dispatcher.next_cert_key() == 1,
    {
        MsgDispatcher { dispatcher_certs: Vec::new(), subscriber_count: 1 }
    }

    /// The key that the next subscription gets.
    pub fn subscriber_count(&self) -> (key: CertKeyT)
        ensures
            key == self.next_cert_key(),
    {
        self.subscriber_count
    }

    /// Hands out the next key: 1, 2, 3 and so on, and after the largest key
    /// the smallest. A key comes back only after all others were handed out.
    pub fn get_cert(&mut self) -> (key: CertKeyT)
        ensures
            key == old(self).next_cert_key(),
            final(self).next_cert_key() == next_key(key),
            final(self).certs() == old(self).certs(),
    {
        let key = self.subscriber_count;
        self.subscriber_count = if key == i32::MAX {
            i32::MIN
        } else {
            key + 1
        };
        key
    }

    /// Where the subscription that `key` names stands, if there is one.
    fn position(&self, key: CertKeyT) -> (at: Option<usize>)
        ensures
            match at {
                Some(i) => i < self.certs().len() && self.certs()[i as int].cert_key == key,
                None => !self.has_cert(key),
            },
    {
        let mut i: usize = 0;
        while i < self.dispatcher_certs.len()
            invariant
                i <= self.certs().len(),
                forall|j: int| 0 <= j < i ==> self.certs()[j].cert_key != key,
            decreases self.certs().len() - i,
        {
            if self.dispatcher_certs[i].cert_key == key {
                return Some(i);
            }
            i += 1;
        }
        None
    }

    /// Installs the subscription `cert_key`, in place of the one that had
    /// this key if there was one. It runs from now on.
    pub fn subscribe(
        &mut self,
        verify_data: &str,
        dispatcher_func: P,
        sender: Sender<Vec<Record<T>>>,
        cert_key: CertKeyT,
    )
        requires
            old(self).wf(),
            total(dispatcher_func),
        ensures
            final(self).wf(),
            final(self).next_cert_key() == old(self).next_cert_key(),
            final(self).has_cert(cert_key),
            final(self).cert(cert_key).cert_key == cert_key,
            final(self).cert(cert_key).verify_data@ == verify_data@,
            final(self).cert(cert_key).dispatcher_func == dispatcher_func,
            final(self).cert(cert_key).send_channel == sender,
            final(self).cert(cert_key).is_running,
            final(self).certs() == installed(old(self).certs(), final(self).cert(cert_key)),
    {
        let cert = DispatcherCert {
            cert_key,
            dispatcher_func,
            verify_data: verify_data.to_owned(),
            is_running: true,
            send_channel: sender,
        };
        let ghost before = self.certs();
        match self.position(cert_key) {
            Some(i) => {
                assert(key_index(before, cert_key) == i);
                self.dispatcher_certs.set(i, cert);
                assert(self.certs()[i as int].cert_key == cert_key);
                assert(key_index(self.certs(), cert_key) == i);
            },
            None => {
                self.dispatcher_certs.push(cert);
                assert(self.certs()[before.len() as int].cert_key == cert_key);
                assert(key_index(self.certs(), cert_key) == before.len());
            },
        }
    }

    /// Hands out a fresh key and installs a subscription under it.
    pub fn get_cert_and_subscribe(
        &mut self,
        verify_data: &str,
        dispatcher_func: P,
        sender: Sender<Vec<Record<T>>>,
    ) -> (cert_key: CertKeyT)
        requires
            old(self).wf(),
            total(dispatcher_func),
        ensures
            cert_key == old(self).next_cert_key(),
            final(self).wf(),
            final(self).next_cert_key() == next_key(cert_key),
            final(self).has_cert(cert_key),
            final(self).cert(cert_key).cert_key == cert_key,
            final(self).cert(cert_key).verify_data@ == verify_data@,
            final(self).cert(cert_key).dispatcher_func == dispatcher_func,
            final(self).cert(cert_key).send_channel == sender,
            final(self).cert(cert_key).is_running,
            final(self).certs() == installed(old(self).certs(), final(self).cert(cert_key)),
    {
        let cert_key = self.get_cert();
        self.subscribe(verify_data, dispatcher_func, sender, cert_key);
        cert_key
    }

    /// Offers to every running subscription what it is owed of `msgs`, as one
    /// batch and at most once; a subscription that is owed nothing is offered
    /// nothing. A channel that refuses its batch holds up nobody: the refusal
    /// is reported and the batch is dropped.
    pub fn dispatch(&self, msgs: Vec<Record<T>>) -> (reports: Vec<SendReport>)
        requires
            self.wf(),
        ensures
            exists|plan: Seq<Seq<Record<T>>>|
                {
                    &&& accounts_for(self.certs(), plan, reports@)
                    &&& forall|i: int|
                        0 <= i < self.certs().len() ==> owed(self.certs()[i], msgs@, #[trigger] plan[i])
                },
    {
        let mut reports: Vec<SendReport> = Vec::new();
        let ghost mut plan: Seq<Seq<Record<T>>> = Seq::empty();
        let mut i: usize = 0;
        while i < self.dispatcher_certs.len()
            invariant
                self.wf(),
                i <= self.certs().len(),
                accounts_for(self.certs().take(i as int), plan, reports@),
                forall|j: int| 0 <= j < i ==> owed(self.certs()[j], msgs@, #[trigger] plan[j]),
            decreases self.certs().len() - i,
        {
            let cert = &self.dispatcher_certs[i];
            let batch = if cert.is_running {
                cert.select(&msgs)
            } else {
                Vec::new()
            };
            let len = batch.len();
            proof {
                plan = plan.push(batch@);
            }
            let delivered = if len > 0 {
                offer(&cert.send_channel, batch)
            } else {
                false
            };
            reports.push(SendReport { cert_key: cert.cert_key, len, delivered });
            i += 1;
        }
        assert(self.certs().take(i as int) =~= self.certs());
        reports
    }

    /// Removes the subscription `key`; `true` when there was one. The
    /// subscription stops running before it leaves, so that no batch is
    /// offered to it from then on.
    pub fn unsubscribe(&mut self, key: CertKeyT) -> (was_subscribed: bool)
        requires
            old(self).wf(),
        ensures
            final(self).wf(),
            was_subscribed == old(self).has_cert(key),
            final(self).certs() == removed(old(self).certs(), key),
            final(self).next_cert_key() == old(self).next_cert_key(),
            !final(self).has_cert(key),
    {
        let ghost before = self.certs();
        match self.position(key) {
            Some(i) => {
                assert(key_index(before, key) == i);
                self.dispatcher_certs[i].is_running = false;
                self.dispatcher_certs.remove(i);
                assert(self.certs() =~= before.remove(i as int));
                true
            },
            None => false,
        }
    }

    /// Whether no subscription is left.
    pub fn no_subscriber(&self) -> (none: bool)
        ensures
            none == (self.certs().len() == 0),
    {
        self.dispatcher_certs.len() == 0
    }

    /// Offers the whole of `msgs`, unfiltered, to the subscription `cert_key`
    /// alone. Nothing is offered, and nothing reported, where no running
    /// subscription has this key.
    pub fn dispatch_single(&self, msgs: Vec<Record<T>>, cert_key: CertKeyT) -> (report: Option<
        SendReport,
    >)
        requires
            self.wf(),
        ensures
            report is Some <==> self.has_cert(cert_key) && self.cert(cert_key).is_running,
            report is Some ==> report->0.cert_key == cert_key && report->0.len == msgs.len(),
    {
        match self.position(cert_key) {
            Some(i) => {
                assert(key_index(self.certs(), cert_key) == i);
                let cert = &self.dispatcher_certs[i];
                if cert.is_running {
                    let len = msgs.len();
                    let delivered = offer(&cert.send_channel, msgs);
                    Some(SendReport { cert_key, len, delivered })
                } else {
                    None
                }
            },
            None => None,
        }
    }
}

/// The key handed out `k` draws after `start` was handed out.
pub open spec fn key_after(start: CertKeyT, k: nat) -> CertKeyT
    decreases k,
{
    if k == 0 {
        start
    } else {
        next_key(key_after(start, (k - 1) as nat))
    }
}

/// Any two of the first 2^32 keys that a dispatcher hands out differ, and as
/// long as the largest key has not been reached each key is larger than the
/// one before.
pub proof fn lemma_keys_do_not_repeat(start: CertKeyT, i: nat, j: nat)
    requires
        i < j,
        j < 0x1_0000_0000,
    ensures
        key_after(start, i) != key_after(start, j),
        start + j <= i32::MAX ==> key_after(start, i) < key_after(start, j),
{
    lemma_key_after_closed_form(start, i);
    lemma_key_after_closed_form(start, j);
}

/// The key after `k` draws is `start + k`, taken back into range.
proof fn lemma_key_after_closed_form(start: CertKeyT, k: nat)
    requires
        k < 0x1_0000_0000,
    ensures
        key_after(start, k) == if start + k <= i32::MAX {
            start + k
        } else {
            start + k - 0x1_0000_0000
        },
    decreases k,
{
    if k > 0 {
        lemma_key_after_closed_form(start, (k - 1) as nat);
    }
}

/// The subscription that `key` names among `certs`.
pub open spec fn cert_of<T, P>(certs: Seq<DispatcherCert<T, P>>, key: CertKeyT) -> DispatcherCert<
    T,
    P,
> {
    certs[key_index(certs, key)]
}

/// Installing a subscription disturbs no other: its key names it afterwards,
/// and every other key names what it named before, or nothing as before.
pub proof fn lemma_install_keeps_others<T, P>(
    certs: Seq<DispatcherCert<T, P>>,
    cert: DispatcherCert<T, P>,
    other: CertKeyT,
)
    requires
        distinct_keys(certs),
    ensures
        distinct_keys(installed(certs, cert)),
        has_key(installed(certs, cert), cert.cert_key),
        cert_of(installed(certs, cert), cert.cert_key) == cert,
        other != cert.cert_key ==> has_key(installed(certs, cert), other) == has_key(certs, other),
        other != cert.cert_key && has_key(certs, other) ==> cert_of(installed(certs, cert), other)
            == cert_of(certs, other),
{
    let after = installed(certs, cert);
    let at = if has_key(certs, cert.cert_key) {
        key_index(certs, cert.cert_key)
    } else {
        certs.len() as int
    };
    assert(after[at] == cert);
    assert forall|i: int| 0 <= i < after.len() && i != at implies #[trigger] after[i] == certs[i]
        && after[i].cert_key != cert.cert_key by {
        if !has_key(certs, cert.cert_key) {
            assert(certs[i].cert_key != cert.cert_key);
        }
    }
    assert(after[at].cert_key == cert.cert_key);
    if other != cert.cert_key {
        if has_key(certs, other) {
            let k = key_index(certs, other);
            assert(k != at);
            assert(after[k].cert_key == other);
            let j = key_index(after, other);
            assert(j != at);
        }
        if has_key(after, other) {
            let j = key_index(after, other);
            assert(j != at);
            assert(certs[j].cert_key == other);
        }
    }
}

/// Removing a subscription disturbs no other: every other key names what it
/// named before, or nothing as before.
pub proof fn lemma_removal_keeps_others<T, P>(
    certs: Seq<DispatcherCert<T, P>>,
    key: CertKeyT,
    other: CertKeyT,
)
    requires
        distinct_keys(certs),
        other != key,
    ensures
        has_key(removed(certs, key), other) == has_key(certs, other),
        has_key(certs, other) ==> cert_of(removed(certs, key), other) == cert_of(certs, other),
{
    lemma_removal_is_idempotent(certs, key);
    if has_key(certs, key) {
        let at = key_index(certs, key);
        let rest = certs.remove(at);
        assert forall|i: int| 0 <= i < rest.len() implies #[trigger] rest[i] == certs[if i < at {
            i
        } else {
            i + 1
        }] by {}
        if has_key(certs, other) {
            let k = key_index(certs, other);
            let j = if k < at {
                k
            } else {
                k - 1
            };
            assert(rest[j] == certs[k]);
            assert(rest[j].cert_key == other);
            let found = key_index(rest, other);
            assert(rest[found] == certs[if found < at {
                found
            } else {
                found + 1
            }]);
        }
        if has_key(rest, other) {
            let j = key_index(rest, other);
            assert(certs[if j < at {
                j
            } else {
                j + 1
            }].cert_key == other);
        }
    }
}

/// Removing a subscription is idempotent: once removed, its key names
/// nothing, and removing it again changes nothing.
pub proof fn lemma_removal_is_idempotent<T, P>(certs: Seq<DispatcherCert<T, P>>, key: CertKeyT)
    requires
        distinct_keys(certs),
    ensures
        !has_key(removed(certs, key), key),
        removed(removed(certs, key), key) == removed(certs, key),
        distinct_keys(removed(certs, key)),
{
    if has_key(certs, key) {
        let at = key_index(certs, key);
        let rest = certs.remove(at);
        assert forall|i: int| 0 <= i < rest.len() implies (#[trigger] rest[i]).cert_key != key by {
            if i < at {
                assert(rest[i] == certs[i]);
            } else {
                assert(rest[i] == certs[i + 1]);
            }
        }
        assert forall|i: int, j: int| 0 <= i < rest.len() && 0 <= j < rest.len() && i != j implies (
        #[trigger] rest[i]).cert_key != (#[trigger] rest[j]).cert_key by {
            let a = if i < at { i } else { i + 1 };
            let b = if j < at { j } else { j + 1 };
            assert(rest[i] == certs[a]);
            assert(rest[j] == certs[b]);
        }
    }
}

/// Every error of a batch reaches a subscriber, whatever its predicate says:
/// what it is owed holds the error texts of the batch, all of them and in
/// order.
pub proof fn lemma_errors_reach_every_subscriber<T: Clone, P: Fn(&String, &T) -> bool>(
    pred: P,
    verify: String,
    msgs: Seq<Record<T>>,
    out: Seq<Record<T>>,
)
    requires
        selects(pred, verify, msgs, out),
    ensures
        errors_of(out) == errors_of(msgs),
    decreases msgs.len(),
{
    if msgs.len() > 0 {
        let kept = out.len() > 0 && stands_for(msgs.last(), out.last()) && selects(
            pred,
            verify,
            msgs.drop_last(),
            out.drop_last(),
        );
        if kept {
            lemma_errors_reach_every_subscriber(pred, verify, msgs.drop_last(), out.drop_last());
        } else {
            lemma_errors_reach_every_subscriber(pred, verify, msgs.drop_last(), out);
        }
    }
}

/// A subscriber whose predicate never answers no is owed the batch intact: as
/// many records as the batch has, each standing for the one in its place.
pub proof fn lemma_accept_all_receives_batch_intact<T: Clone, P: Fn(&String, &T) -> bool>(
    pred: P,
    verify: String,
    msgs: Seq<Record<T>>,
    out: Seq<Record<T>>,
)
    requires
        selects(pred, verify, msgs, out),
        forall|value: T| !#[trigger] call_ensures(pred, (&verify, &value), false),
    ensures
        out.len() == msgs.len(),
        forall|i: int| 0 <= i < msgs.len() ==> stands_for(msgs[i], #[trigger] out[i]),
    decreases msgs.len(),
{
    if msgs.len() > 0 {
        lemma_accept_all_receives_batch_intact(pred, verify, msgs.drop_last(), out.drop_last());
        assert forall|i: int| 0 <= i < msgs.len() implies stands_for(msgs[i], #[trigger] out[i]) by {
            if i < msgs.len() - 1 {
                assert(msgs.drop_last()[i] == msgs[i]);
                assert(out.drop_last()[i] == out[i]);
            }
        }
    }
}

/// The batch with the values on which `accepts` says no left out.
pub open spec fn filtered<T>(
    accepts: spec_fn(String, T) -> bool,
    verify: String,
    msgs: Seq<Record<T>>,
) -> Seq<Record<T>>
    decreases msgs.len(),
{
    if msgs.len() == 0 {
        Seq::empty()
    } else {
        let rest = filtered(accepts, verify, msgs.drop_last());
        match msgs.last() {
            Err(_) => rest.push(msgs.last()),
            Ok(value) => if accepts(verify, value) {
                rest.push(msgs.last())
            } else {
                rest
            },
        }
    }
}

/// A value is in what a subscriber is owed exactly when its predicate answers
/// yes on it: where the predicate computes `accepts`, the subscriber is owed
/// the batch filtered by `accepts`, record for record.
pub proof fn lemma_value_included_iff_predicate_holds<T: Clone, P: Fn(&String, &T) -> bool>(
    pred: P,
    accepts: spec_fn(String, T) -> bool,
    verify: String,
    msgs: Seq<Record<T>>,
    out: Seq<Record<T>>,
)
    requires
        selects(pred, verify, msgs, out),
        forall|value: T, answer: bool| #[trigger]
            call_ensures(pred, (&verify, &value), answer) ==> answer == accepts(verify, value),
    ensures
        out.len() == filtered(accepts, verify, msgs).len(),
        forall|i: int|
            0 <= i < out.len() ==> stands_for(filtered(accepts, verify, msgs)[i], #[trigger] out[i]),
    decreases msgs.len(),
{
    if msgs.len() > 0 {
        let kept = out.len() > 0 && stands_for(msgs.last(), out.last()) && selects(
            pred,
            verify,
            msgs.drop_last(),
            out.drop_last(),
        );
        let keep_last = match msgs.last() {
            Err(_) => true,
            Ok(value) => accepts(verify, value),
        };
        if keep_last {
            assert(kept);
            lemma_value_included_iff_predicate_holds(
                pred,
                accepts,
                verify,
                msgs.drop_last(),
                out.drop_last(),
            );
            let rest = filtered(accepts, verify, msgs.drop_last());
            assert forall|i: int| 0 <= i < out.len() implies stands_for(
                filtered(accepts, verify, msgs)[i],
                #[trigger] out[i],
            ) by {
                if i < out.len() - 1 {
                    assert(out.drop_last()[i] == out[i]);
                    assert(rest.push(msgs.last())[i] == rest[i]);
                }
            }
        } else {
            lemma_value_included_iff_predicate_holds(pred, accepts, verify, msgs.drop_last(), out);
        }
    }
}

} // verus!
