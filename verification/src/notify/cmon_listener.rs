//! The listener for platforms that can watch single files.
//!
//! It keeps one operating-system watch per path, however many handles wait
//! for that path, and passes each change on to all of them. The watch itself
//! is installed and released by the caller, who is told when.

use vstd::prelude::*;
use dashmap::DashMap;
use crate::notify::path_map::{
    new_table,
    table_contains,
    table_get,
    table_insert,
    table_remove,
    watch_entries,
};
use crate::utils::channel::offer;
use crate::utils::error::ReaderError;
use crate::utils::model::{
    next_uid,
    NotifyEvent,
    NotifyEventData,
    NotifyMeta,
    NotifyMetaUid,
    UidCounter,
};
use crate::utils::timer::get_coarse_timestamp_ms;

verus! {

/// What the operating system answered when it was asked to watch a path.
#[derive(Debug, Clone)]
pub enum WatchInstall {
    /// It was not asked.
    NotAttempted,
    /// The watch is in place.
    Installed,
    /// It refused, for the reason given.
    Failed(String),
}

/// The kinds of raw change that the operating system reports.
#[derive(Debug, Clone, Copy, PartialEq, Eq, Structural)]
pub enum RawEventKind {
    /// The content of a file changed.
    DataContent,
    /// The size of a file changed.
    DataSize,
    /// Anything else: access, creation, removal, metadata.
    Other,
}

/// One raw change and the paths that it touched.
#[derive(Debug)]
pub struct RawEvent {
    pub kind: RawEventKind,
    pub paths: Vec<String>,
}

/// What became of one event that was offered to one handle.
#[derive(Debug, Clone, Copy, PartialEq, Eq, Structural)]
pub struct NotifyReport {
    /// The handle.
    pub uid: NotifyMetaUid,
    /// The event that was offered to its mailbox.
    pub event: NotifyEventData,
    /// Whether its mailbox took the event.
    pub delivered: bool,
}

/// The event that tells of a write at the time `now`.
pub open spec fn write_event(now: u64) -> NotifyEventData {
    NotifyEventData { event: NotifyEvent::WriteEvent, last_notify_time: now }
}

/// Whether a raw change is one that readers are told about.
pub open spec fn is_data_change(kind: RawEventKind) -> bool {
    kind == RawEventKind::DataContent || kind == RawEventKind::DataSize
}

/// Whether one of `metas` has the identity `uid`.
pub open spec fn has_uid(metas: Seq<NotifyMeta>, uid: NotifyMetaUid) -> bool {
    exists|i: int| 0 <= i < metas.len() && (#[trigger] metas[i]).uid == uid
}

/// `metas` without the handles of identity `uid`, the rest in order.
pub open spec fn without_uid(metas: Seq<NotifyMeta>, uid: NotifyMetaUid) -> Seq<NotifyMeta>
    decreases metas.len(),
{
    if metas.len() == 0 {
        metas
    } else if metas.last().uid == uid {
        without_uid(metas.drop_last(), uid)
    } else {
        without_uid(metas.drop_last(), uid).push(metas.last())
    }
}

/// The identities of `metas`, in order.
pub open spec fn uids_of(metas: Seq<NotifyMeta>) -> Seq<NotifyMetaUid> {
    metas.map_values(|meta: NotifyMeta| meta.uid)
}

/// The identities that reports speak of, in order.
pub open spec fn reported_uids(reports: Seq<NotifyReport>) -> Seq<NotifyMetaUid> {
    reports.map_values(|report: NotifyReport| report.uid)
}

/// The handles that wait for `path`; none where it has no entry.
pub open spec fn entries_of(watches: Map<Seq<char>, Seq<NotifyMeta>>, path: Seq<char>) -> Seq<
    NotifyMeta,
> {
    if watches.dom().contains(path) {
        watches[path]
    } else {
        Seq::empty()
    }
}

/// The handles that a change of `paths` is passed on to: those of the first
/// path, then those of the second, and so on.
pub open spec fn path_targets(watches: Map<Seq<char>, Seq<NotifyMeta>>, paths: Seq<String>) -> Seq<
    NotifyMetaUid,
>
    decreases paths.len(),
{
    if paths.len() == 0 {
        Seq::empty()
    } else {
        path_targets(watches, paths.drop_last()) + uids_of(entries_of(watches, paths.last()@))
    }
}

/// The handles that `events` are passed on to, event after event; an event
/// that is no data change is passed on to nobody.
pub open spec fn event_targets(watches: Map<Seq<char>, Seq<NotifyMeta>>, events: Seq<RawEvent>) -> Seq<
    NotifyMetaUid,
>
    decreases events.len(),
{
    if events.len() == 0 {
        Seq::empty()
    } else if is_data_change(events.last().kind) {
        event_targets(watches, events.drop_last()) + path_targets(watches, events.last().paths@)
    } else {
        event_targets(watches, events.drop_last())
    }
}

/// Whether `metas` can be the entry of `path`: there is at least one handle,
/// and each is a handle of this path.
pub open spec fn entry_of(path: Seq<char>, metas: Seq<NotifyMeta>) -> bool {
    &&& metas.len() > 0
    &&& forall|i: int| 0 <= i < metas.len() ==> (#[trigger] metas[i]).file_path@ == path
}

/// Every entry of the table holds at least one handle, and only handles of
/// its own path.
pub open spec fn well_formed(watches: Map<Seq<char>, Seq<NotifyMeta>>) -> bool {
    forall|path: Seq<char>| #[trigger]
        watches.dom().contains(path) ==> entry_of(path, watches[path])
}

/// A well-formed table stays so when the entry of `path` grows by a handle of
/// that path.
proof fn lemma_entry_stays_well_formed(
    watches: Map<Seq<char>, Seq<NotifyMeta>>,
    path: Seq<char>,
    metas: Seq<NotifyMeta>,
    meta: NotifyMeta,
)
    requires
        well_formed(watches),
        metas == entries_of(watches, path).push(meta),
        meta.file_path@ == path,
    ensures
        well_formed(watches.insert(path, metas)),
{
    let after = watches.insert(path, metas);
    assert forall|other: Seq<char>| #[trigger] after.dom().contains(other) implies entry_of(
        other,
        after[other],
    ) by {
        if other == path {
            assert forall|i: int| 0 <= i < metas.len() implies (#[trigger] metas[i]).file_path@
                == path by {
                if i < metas.len() - 1 {
                    assert(watches.dom().contains(path));
                    assert(metas[i] == watches[path][i]);
                }
            }
        } else {
            assert(watches.dom().contains(other));
        }
    }
}

/// The table after a handle for `path` was added.
pub open spec fn after_add(
    watches: Map<Seq<char>, Seq<NotifyMeta>>,
    path: Seq<char>,
    meta: NotifyMeta,
) -> Map<Seq<char>, Seq<NotifyMeta>> {
    watches.insert(path, entries_of(watches, path).push(meta))
}

/// Whether removing the identity `uid` from `path` takes the last handle of
/// the path away.
pub open spec fn releases(
    watches: Map<Seq<char>, Seq<NotifyMeta>>,
    path: Seq<char>,
    uid: NotifyMetaUid,
) -> bool {
    has_uid(entries_of(watches, path), uid) && without_uid(watches[path], uid).len() == 0
}

/// The table after the handles of identity `uid` were removed from `path`;
/// the same table where the path has no such handle.
pub open spec fn after_remove(
    watches: Map<Seq<char>, Seq<NotifyMeta>>,
    path: Seq<char>,
    uid: NotifyMetaUid,
) -> Map<Seq<char>, Seq<NotifyMeta>> {
    if !has_uid(entries_of(watches, path), uid) {
        watches
    } else if releases(watches, path, uid) {
        watches.remove(path)
    } else {
        watches.insert(path, without_uid(watches[path], uid))
    }
}

/// One change of the table.
pub enum WatchOp {
    /// A handle was added for a path.
    Add(Seq<char>, NotifyMeta),
    /// The handles of an identity were removed from a path.
    Remove(Seq<char>, NotifyMetaUid),
}

/// The table after `ops`, starting from the empty table.
pub open spec fn table_after(ops: Seq<WatchOp>) -> Map<Seq<char>, Seq<NotifyMeta>>
    decreases ops.len(),
{
    if ops.len() == 0 {
        Map::empty()
    } else {
        let before = table_after(ops.drop_last());
        match ops.last() {
            WatchOp::Add(path, meta) => after_add(before, path, meta),
            WatchOp::Remove(path, uid) => after_remove(before, path, uid),
        }
    }
}

/// The number of operating-system watches that are live on `path` after
/// `ops`, for a caller who installs one whenever a handle is added for a
/// path that is not watched, and releases one whenever a removal says so.
pub open spec fn live_watches(ops: Seq<WatchOp>, path: Seq<char>) -> int
    decreases ops.len(),
{
    if ops.len() == 0 {
        0
    } else {
        let before = table_after(ops.drop_last());
        let live = live_watches(ops.drop_last(), path);
        match ops.last() {
            WatchOp::Add(added, _) => if added == path && !before.dom().contains(path) {
                live + 1
            } else {
                live
            },
            WatchOp::Remove(removed, uid) => if removed == path && releases(before, path, uid) {
                live - 1
            } else {
                live
            },
        }
    }
}

/// At every moment a path that has handles has exactly one operating-system
/// watch, however many handles it has, and a path without handles has none.
pub proof fn lemma_one_watch_per_path(ops: Seq<WatchOp>, path: Seq<char>)
    ensures
        well_formed_counts(table_after(ops)),
        live_watches(ops, path) == if table_after(ops).dom().contains(path) {
            1int
        } else {
            0int
        },
    decreases ops.len(),
{
    if ops.len() > 0 {
        lemma_one_watch_per_path(ops.drop_last(), path);
        let before = table_after(ops.drop_last());
        match ops.last() {
            WatchOp::Add(added, meta) => {
                assert(after_add(before, added, meta)[added].last() == meta);
            },
            WatchOp::Remove(removed, uid) => {
                lemma_without_uid_len(entries_of(before, removed), uid);
            },
        }
    }
}

/// Every entry of the table holds at least one handle.
pub open spec fn well_formed_counts(watches: Map<Seq<char>, Seq<NotifyMeta>>) -> bool {
    forall|path: Seq<char>| #[trigger] watches.dom().contains(path) ==> watches[path].len() > 0
}

/// Filtering out an identity keeps every handle exactly when none has it.
pub proof fn lemma_without_uid_len(metas: Seq<NotifyMeta>, uid: NotifyMetaUid)
    ensures
        without_uid(metas, uid).len() <= metas.len(),
        without_uid(metas, uid).len() == metas.len() <==> !has_uid(metas, uid),
        !has_uid(without_uid(metas, uid), uid),
        forall|i: int|
            0 <= i < without_uid(metas, uid).len() ==> metas.contains(
                #[trigger] without_uid(metas, uid)[i],
            ),
    decreases metas.len(),
{
    if metas.len() > 0 {
        let rest = metas.drop_last();
        lemma_without_uid_len(rest, uid);
        let kept = without_uid(metas, uid);
        if has_uid(rest, uid) {
            let i = choose|i: int| 0 <= i < rest.len() && (#[trigger] rest[i]).uid == uid;
            assert(metas[i].uid == uid);
        }
        if has_uid(metas, uid) && metas.last().uid != uid {
            let i = choose|i: int| 0 <= i < metas.len() && (#[trigger] metas[i]).uid == uid;
            assert(rest[i].uid == uid);
        }
        if metas.last().uid == uid {
            assert(metas[metas.len() - 1].uid == uid);
        }
        assert forall|i: int| 0 <= i < kept.len() implies metas.contains(#[trigger] kept[i]) by {
            if i < without_uid(rest, uid).len() {
                let j = choose|j: int| 0 <= j < rest.len() && rest[j] == without_uid(rest, uid)[i];
                assert(metas[j] == kept[i]);
            } else {
                assert(metas[metas.len() - 1] == kept[i]);
            }
        }
        if has_uid(kept, uid) {
            let i = choose|i: int| 0 <= i < kept.len() && (#[trigger] kept[i]).uid == uid;
            if i < without_uid(rest, uid).len() {
                assert(without_uid(rest, uid)[i].uid == uid);
            }
        }
    }
}

/// The listener: the table of watched paths, whether its event loop runs, and
/// the source of the identities that it hands out.
pub struct CmonListener {
    path_map: DashMap<String, Vec<NotifyMeta>>,
    running: bool,
    uids: UidCounter,
}

impl CmonListener {
    /// The handles that wait for each watched path.
    pub closed spec fn watches(&self) -> Map<Seq<char>, Seq<NotifyMeta>> {
        watch_entries(self.path_map)
    }

    /// Whether the event loop has been started.
    pub closed spec fn is_running(&self) -> bool {
        self.running
    }

    /// The identity that the next handle gets.
    pub closed spec fn upcoming_uid(&self) -> NotifyMetaUid {
        self.uids.peek()
    }

    /// Whether an operating-system watch is held for `path`: it is held for
    /// exactly the paths that have an entry.
    pub open spec fn watched(&self, path: Seq<char>) -> bool {
        self.watches().dom().contains(path)
    }

    /// Every watched path has at least one handle, and each handle is entered
    /// under its own path.
    pub open spec fn wf(&self) -> bool {
        well_formed(self.watches())
    }

    /// Whether `after` and `added` are what adding a handle for `path` to this
    /// listener gives. The handle is added exactly where the path is watched
    /// or `install` says that a watch is in place; it has the next identity
    /// and stands last among the handles of its path. Else the table stays
    /// as it is and the error carries what the operating system said. The
    /// identity is used up either way.
    pub open spec fn add_watch_gives(
        &self,
        after: Self,
        path: String,
        install: WatchInstall,
        added: Result<NotifyMeta, ReaderError>,
    ) -> bool {
        &&& after.is_running() == self.is_running()
        &&& after.upcoming_uid() == next_uid(self.upcoming_uid())
        &&& added is Ok <==> self.watched(path@) || install is Installed
        &&& match added {
            Ok(meta) => {
                &&& meta.uid == self.upcoming_uid()
                &&& meta.file_path == path
                &&& meta.last_bytes == 0
                &&& meta.cur_bytes == 0
                &&& after.watches() == after_add(self.watches(), path@, meta)
            },
            Err(error) => {
                &&& after.watches() == self.watches()
                &&& error is IoError
                &&& install matches WatchInstall::Failed(detail) ==> error->IoError_0 == detail
            },
        }
    }

    /// Whether `after` and `removed` are what removing `meta` from this
    /// listener gives. The call succeeds exactly where the path of `meta`
    /// has a handle of its identity; these handles leave, and `Ok(true)`
    /// says that none is left for the path. Else nothing changes.
    pub open spec fn remove_watch_gives(
        &self,
        after: Self,
        meta: NotifyMeta,
        removed: Result<bool, ReaderError>,
    ) -> bool {
        &&& after.is_running() == self.is_running()
        &&& after.upcoming_uid() == self.upcoming_uid()
        &&& removed is Ok <==> has_uid(entries_of(self.watches(), meta.file_path@), meta.uid)
        &&& removed is Ok ==> removed->Ok_0 == releases(self.watches(), meta.file_path@, meta.uid)
        &&& removed is Err ==> removed->Err_0 is NotWatched
        &&& after.watches() == after_remove(self.watches(), meta.file_path@, meta.uid)
    }

    /// Whether `after` and `start` are what starting this listener gives: it
    /// runs, and `start` says whether it did not run before.
    pub open spec fn init_gives(&self, after: Self, start: bool) -> bool {
        &&& after.is_running()
        &&& start == !self.is_running()
        &&& after.watches() == self.watches()
        &&& after.upcoming_uid() == self.upcoming_uid()
    }

    /// A listener that watches nothing and whose loop has not started.
    pub fn new() -> (listener: Self)
        ensures
            listener.wf(),
            listener.watches() == (Map::<Seq<char>, Seq<NotifyMeta>>::empty()),
            !listener.is_running(),
            listener.upcoming_uid() == 1,
    {
        CmonListener { path_map: new_table(), running: false, uids: UidCounter::new() }
    }

    /// Whether the operating system has to be asked for a watch before a
    /// handle for `path` can be added: it has, unless the path is watched.
    pub fn needs_os_watch(&self, path: &str) -> (needed: bool)
        ensures
            needed == !self.watched(path@),
    {
        !table_contains(&self.path_map, path)
    }

    /// Adds a handle for `path`. A path that is watched takes the handle as it
    /// is; for any other, `install` must say that the operating system has
    /// put a watch in place, or the call fails and nothing is entered.
    pub fn __add_watch(&mut self, path: String, install: WatchInstall) -> (added: Result<
        NotifyMeta,
        ReaderError,
    >)
        requires
            old(self).wf(),
        ensures
            final(self).wf(),
            old(self).add_watch_gives(*final(self), path, install, added),
    {
        let meta = NotifyMeta::new(&mut self.uids, path.clone());
        let ghost before = self.watches();
        match table_get(&self.path_map, path.as_str()) {
            Some(mut metas) => {
                metas.push(meta.clone());
                proof {
                    lemma_entry_stays_well_formed(before, path@, metas@, meta);
                }
                table_insert(&mut self.path_map, path, metas);
                Ok(meta)
            },
            None => match install {
                WatchInstall::Installed => {
                    let mut metas: Vec<NotifyMeta> = Vec::new();
                    metas.push(meta.clone());
                    assert(metas@ =~= entries_of(before, path@).push(meta));
                    proof {
                        lemma_entry_stays_well_formed(before, path@, metas@, meta);
                    }
                    table_insert(&mut self.path_map, path, metas);
                    Ok(meta)
                },
                WatchInstall::Failed(detail) => Err(ReaderError::IoError(detail)),
                WatchInstall::NotAttempted => Err(
                    ReaderError::IoError("no watch was installed".to_string()),
                ),
            },
        }
    }

    /// Removes the handles of the identity of `meta` from its path. `Ok(true)`
    /// says that it was the last handle of the path, whose entry is gone and
    /// whose operating-system watch is to be released.
    pub fn __remove_watch(&mut self, meta: &NotifyMeta) -> (removed: Result<bool, ReaderError>)
        requires
            old(self).wf(),
        ensures
            final(self).wf(),
            old(self).remove_watch_gives(*final(self), *meta, removed),
    {
        match table_get(&self.path_map, meta.file_path.as_str()) {
            None => Err(ReaderError::NotWatched),
            Some(metas) => {
                let mut kept: Vec<NotifyMeta> = Vec::new();
                let mut i: usize = 0;
                while i < metas.len()
                    invariant
                        i <= metas.len(),
                        kept@ == without_uid(metas@.take(i as int), meta.uid),
                    decreases metas.len() - i,
                {
                    proof {
                        assert(metas@.take(i + 1).drop_last() =~= metas@.take(i as int));
                    }
                    if metas[i].uid != meta.uid {
                        kept.push(metas[i].clone());
                    }
                    i += 1;
                }
                proof {
                    assert(metas@.take(i as int) =~= metas@);
                    lemma_without_uid_len(metas@, meta.uid);
                }
                let ghost before = self.watches();
                if kept.len() == metas.len() {
                    Err(ReaderError::NotWatched)
                } else if kept.len() == 0 {
                    table_remove(&mut self.path_map, meta.file_path.as_str());
                    assert forall|other: Seq<char>| #[trigger]
                        self.watches().dom().contains(other) implies entry_of(
                        other,
                        self.watches()[other],
                    ) by {
                        assert(before.dom().contains(other));
                    }
                    Ok(true)
                } else {
                    assert(before.dom().contains(meta.file_path@));
                    assert forall|k: int| 0 <= k < kept@.len() implies (#[trigger] kept@[k]).file_path@
                        == meta.file_path@ by {
                        let j = choose|j: int| 0 <= j < metas@.len() && metas@[j] == kept@[k];
                        assert(before[meta.file_path@][j].file_path@ == meta.file_path@);
                    }
                    table_insert(&mut self.path_map, meta.file_path.clone(), kept);
                    assert forall|other: Seq<char>| #[trigger]
                        self.watches().dom().contains(other) implies entry_of(
                        other,
                        self.watches()[other],
                    ) by {
                        if other != meta.file_path@ {
                            assert(before.dom().contains(other));
                        }
                    }
                    Ok(false)
                }
            },
        }
    }

    /// Marks the event loop as started. `true` says that it was not running
    /// and is to be started now; a second call changes nothing.
    pub fn __init(&mut self) -> (start: bool)
        ensures
            old(self).init_gives(*final(self), start),
    {
        let start = !self.running;
        self.running = true;
        start
    }

    /// Offers a write event stamped `now` to every handle that waits for
    /// `path`, in the order in which they were added. A mailbox that is full
    /// misses the event; nobody waits for it.
    pub fn notify_path(&self, path: &str, now: u64) -> (reports: Vec<NotifyReport>)
        ensures
            reported_uids(reports@) == uids_of(entries_of(self.watches(), path@)),
            forall|k: int| 0 <= k < reports@.len() ==> (#[trigger] reports@[k]).event == write_event(now),
    {
        let mut reports: Vec<NotifyReport> = Vec::new();
        match table_get(&self.path_map, path) {
            None => {
                assert(reported_uids(reports@) =~= uids_of(entries_of(self.watches(), path@)));
            },
            Some(metas) => {
                let mut i: usize = 0;
                while i < metas.len()
                    invariant
                        i <= metas.len(),
                        reports@.len() == i,
                        forall|k: int|
                            0 <= k < i ==> (#[trigger] reports@[k]).uid == metas@[k].uid
                                && reports@[k].event == write_event(now),
                    decreases metas.len() - i,
                {
                    let event = NotifyEventData {
                        event: NotifyEvent::WriteEvent,
                        last_notify_time: now,
                    };
                    let delivered = offer(&metas[i].sender, event);
                    reports.push(NotifyReport { uid: metas[i].uid, event, delivered });
                    i += 1;
                }
                assert(reported_uids(reports@) =~= uids_of(metas@));
            },
        }
        reports
    }

    /// One turn of the event loop over the raw changes that have arrived:
    /// each data change is passed on, stamped with the time of the coarse
    /// clock, to the handles of every path that it touched; any other change
    /// is discarded. While the loop has not been started nothing is passed on.
    pub fn event_loop(&self, events: &Vec<RawEvent>) -> (reports: Vec<NotifyReport>)
        ensures
            reported_uids(reports@) == if self.is_running() {
                event_targets(self.watches(), events@)
            } else {
                Seq::empty()
            },
            forall|k: int|
                0 <= k < reports@.len() ==> (#[trigger] reports@[k]).event.event
                    == NotifyEvent::WriteEvent,
    {
        let mut reports: Vec<NotifyReport> = Vec::new();
        if !self.running {
            assert(reported_uids(reports@) =~= Seq::<NotifyMetaUid>::empty());
            return reports;
        }
        assert(reported_uids(reports@) =~= event_targets(self.watches(), events@.take(0)));
        let mut i: usize = 0;
        while i < events.len()
            invariant
                i <= events.len(),
                reported_uids(reports@) == event_targets(self.watches(), events@.take(i as int)),
                forall|k: int|
                    0 <= k < reports@.len() ==> (#[trigger] reports@[k]).event.event
                        == NotifyEvent::WriteEvent,
            decreases events.len() - i,
        {
            proof {
                assert(events@.take(i + 1).drop_last() =~= events@.take(i as int));
            }
            let event = &events[i];
            if event.kind == RawEventKind::DataContent || event.kind == RawEventKind::DataSize {
                let ghost before = reports@;
                assert(reported_uids(reports@) + path_targets(self.watches(), event.paths@.take(0))
                    =~= reported_uids(before));
                let mut j: usize = 0;
                while j < event.paths.len()
                    invariant
                        j <= event.paths.len(),
                        reported_uids(reports@) == reported_uids(before) + path_targets(
                            self.watches(),
                            event.paths@.take(j as int),
                        ),
                        forall|k: int|
                            0 <= k < reports@.len() ==> (#[trigger] reports@[k]).event.event
                                == NotifyEvent::WriteEvent,
                    decreases event.paths.len() - j,
                {
                    proof {
                        assert(event.paths@.take(j + 1).drop_last() =~= event.paths@.take(j as int));
                    }
                    let now = get_coarse_timestamp_ms();
                    let ghost so_far = reports@;
                    let mut part = self.notify_path(event.paths[j].as_str(), now);
                    let ghost added = part@;
                    reports.append(&mut part);
                    assert(reported_uids(reports@) =~= reported_uids(so_far) + reported_uids(added));
                    j += 1;
                }
                assert(event.paths@.take(j as int) =~= event.paths@);
            }
            i += 1;
        }
        assert(events@.take(i as int) =~= events@);
        reports
    }
}

} // verus!
