//! The listener for platforms that can only watch directories.
//!
//! It keeps one operating-system watch per directory, however many files of
//! that directory are waited for. When the directory reports a change, the
//! caller looks up the size of each file, and a handle is told of a write
//! only where the size differs from the one it saw last.

use vstd::prelude::*;
use dashmap::DashMap;
use crate::notify::cmon_listener::{
    after_add,
    after_remove,
    entries_of,
    has_uid,
    lemma_without_uid_len,
    releases,
    reported_uids,
    well_formed_counts,
    without_uid,
    write_event,
    NotifyReport,
    WatchInstall,
};
use crate::notify::path_map::{
    new_table,
    table_contains,
    table_get,
    table_insert,
    table_remove,
    watch_entries,
};
use crate::utils::channel::offer;
use crate::utils::error::ReaderError;
use crate::utils::model::{
    next_uid,
    NotifyEvent,
    NotifyEventData,
    NotifyMeta,
    NotifyMetaUid,
    UidCounter,
};

verus! {

/// The directory that holds `path`, as `std::path::Path::parent` gives it;
/// nothing for a root and for the empty path.
pub uninterp spec fn parent_dir(path: Seq<char>) -> Option<Seq<char>>;

/// The directory that holds `path`.
///
/// Trusted: calls `std::path::Path::parent`, which returns the path without
/// its last component, and nothing where there is none. The contract gives
/// the result its name.
#[verifier::external_body]
pub(crate) fn parent_of(path: &str) -> (dir: Option<String>)
    ensures
        match dir {
            Some(name) => parent_dir(path@) == Some(name@),
            None => parent_dir(path@) is None,
        },
{
    std::path::Path::new(path).parent().map(|dir| dir.to_string_lossy().into_owned())
}

/// The name of a directory as a sequence of characters.
pub open spec fn dir_view(dir: Option<String>) -> Option<Seq<char>> {
    match dir {
        Some(name) => Some(name@),
        None => None,
    }
}

/// Whether a handle is to be told of a write: the size of its file is known
/// and is not the size that the handle saw last.
pub open spec fn size_changed(meta: NotifyMeta, size: Option<u64>) -> bool {
    size is Some && size->0 != meta.cur_bytes
}

/// The handle after the size of its file was looked up: where the size has
/// changed, the old size moves to `last_bytes` and the new one is noted.
pub open spec fn with_size(meta: NotifyMeta, size: Option<u64>) -> NotifyMeta {
    if size_changed(meta, size) {
        NotifyMeta { last_bytes: meta.cur_bytes, cur_bytes: size->0, ..meta }
    } else {
        meta
    }
}

/// The size that was looked up for the handle at `i`; none where the caller
/// brought fewer sizes than there are handles.
pub open spec fn size_at(sizes: Seq<Option<u64>>, i: int) -> Option<u64> {
    if 0 <= i < sizes.len() {
        sizes[i]
    } else {
        None
    }
}

/// The handles after the sizes of their files were looked up.
pub open spec fn with_sizes(metas: Seq<NotifyMeta>, sizes: Seq<Option<u64>>) -> Seq<NotifyMeta> {
    Seq::new(metas.len(), |i: int| with_size(metas[i], size_at(sizes, i)))
}

/// The identities of the handles that are told of a write, in order.
pub open spec fn changed_uids(metas: Seq<NotifyMeta>, sizes: Seq<Option<u64>>) -> Seq<
    NotifyMetaUid,
>
    decreases metas.len(),
{
    if metas.len() == 0 {
        Seq::empty()
    } else {
        let rest = changed_uids(metas.drop_last(), sizes);
        if size_changed(metas.last(), size_at(sizes, metas.len() - 1)) {
            rest.push(metas.last().uid)
        } else {
            rest
        }
    }
}

/// What the thread that waits for the operating system does with one
/// completion.
#[derive(Debug, Clone, Copy, PartialEq, Eq, Structural)]
pub enum PumpStep {
    /// Leave the loop.
    Stop,
    /// Hand the key of the directory to the checking thread.
    Forward(usize),
    /// Wait for the next completion.
    Skip,
}

/// What is done with a completion: a listener that does not run leaves the
/// loop; one that runs passes the key on where the wait succeeded and bytes
/// were transferred, and drops the completion where not.
pub open spec fn pump_step(
    running: bool,
    completed: bool,
    bytes_transferred: u32,
    completion_key: usize,
) -> PumpStep {
    if !running {
        PumpStep::Stop
    } else if completed && bytes_transferred > 0 {
        PumpStep::Forward(completion_key)
    } else {
        PumpStep::Skip
    }
}

/// The listener: the table of watched directories, whether its threads run,
/// and the source of the identities that it hands out.
pub struct IOCPListener {
    watch_info: DashMap<String, Vec<NotifyMeta>>,
    running: bool,
    uids: UidCounter,
}

impl IOCPListener {
    /// The handles that wait for files of each watched directory.
    pub closed spec fn dirs(&self) -> Map<Seq<char>, Seq<NotifyMeta>> {
        watch_entries(self.watch_info)
    }

    /// Whether the threads have been started.
    pub closed spec fn is_running(&self) -> bool {
        self.running
    }

    /// The identity that the next handle gets.
    pub closed spec fn upcoming_uid(&self) -> NotifyMetaUid {
        self.uids.peek()
    }

    /// Whether an operating-system watch is held for the directory `dir`: it
    /// is held for exactly the directories that have an entry.
    pub open spec fn watched(&self, dir: Seq<char>) -> bool {
        self.dirs().dom().contains(dir)
    }

    /// Every watched directory has at least one handle.
    pub open spec fn wf(&self) -> bool {
        well_formed_counts(self.dirs())
    }

    /// Whether `after` and `added` are what adding a handle for the file
    /// `f_path`, which lies in the directory `dir`, to this listener gives.
    /// The handle is added exactly where there is a directory, `install`
    /// does not say that the operating system refused, and the directory is
    /// watched or `install` says that a watch is in place; it has the next
    /// identity and stands last among the handles of its directory. Else
    /// nothing changes and the error carries what the operating system said.
    pub open spec fn add_in_dir_gives(
        &self,
        after: Self,
        dir: Option<Seq<char>>,
        f_path: String,
        install: WatchInstall,
        added: Result<NotifyMeta, ReaderError>,
    ) -> bool {
        &&& after.is_running() == self.is_running()
        &&& added is Ok <==> dir is Some && !(install is Failed) && (self.watched(dir->0)
            || install is Installed)
        &&& match added {
            Ok(meta) => {
                &&& meta.uid == self.upcoming_uid()
                &&& after.upcoming_uid() == next_uid(meta.uid)
                &&& meta.file_path == f_path
                &&& meta.last_bytes == 0
                &&& meta.cur_bytes == 0
                &&& after.dirs() == after_add(self.dirs(), dir->0, meta)
            },
            Err(error) => {
                &&& after.dirs() == self.dirs()
                &&& after.upcoming_uid() == self.upcoming_uid()
                &&& error is IoError
                &&& install matches WatchInstall::Failed(detail) ==> error->IoError_0 == detail
            },
        }
    }

    /// Whether `after` and `added` are what adding a handle for the file
    /// `f_path` to this listener gives: what adding it in the directory that
    /// holds the file gives.
    pub open spec fn add_watch_gives(
        &self,
        after: Self,
        f_path: String,
        install: WatchInstall,
        added: Result<NotifyMeta, ReaderError>,
    ) -> bool {
        self.add_in_dir_gives(after, parent_dir(f_path@), f_path, install, added)
    }

    /// Whether `after` and `removed` are what removing `meta`, whose file
    /// lies in the directory `dir`, from this listener gives. The call
    /// succeeds exactly where the directory has a handle of the identity of
    /// `meta`; these handles leave, and `Ok(true)` says that none is left for
    /// the directory. Else nothing changes.
    pub open spec fn remove_in_dir_gives(
        &self,
        after: Self,
        dir: Option<Seq<char>>,
        meta: NotifyMeta,
        removed: Result<bool, ReaderError>,
    ) -> bool {
        &&& after.is_running() == self.is_running()
        &&& after.upcoming_uid() == self.upcoming_uid()
        &&& removed is Ok <==> dir is Some && has_uid(entries_of(self.dirs(), dir->0), meta.uid)
        &&& removed is Ok ==> removed->Ok_0 == releases(self.dirs(), dir->0, meta.uid)
        &&& removed is Ok ==> after.dirs() == after_remove(self.dirs(), dir->0, meta.uid)
        &&& removed is Err ==> removed->Err_0 is NotWatched && after.dirs() == self.dirs()
    }

    /// Whether `after` and `removed` are what removing `meta` from this
    /// listener gives: what removing it from the directory that holds its
    /// file gives.
    pub open spec fn remove_watch_gives(
        &self,
        after: Self,
        meta: NotifyMeta,
        removed: Result<bool, ReaderError>,
    ) -> bool {
        self.remove_in_dir_gives(after, parent_dir(meta.file_path@), meta, removed)
    }

    /// Whether `after` and `start` are what starting this listener gives: it
    /// runs, and `start` says whether it did not run before.
    pub open spec fn init_gives(&self, after: Self, start: bool) -> bool {
        &&& after.is_running()
        &&& start == !self.is_running()
        &&& after.dirs() == self.dirs()
        &&& after.upcoming_uid() == self.upcoming_uid()
    }

    /// A listener that watches nothing and whose threads have not started.
    pub fn new() -> (listener: Self)
        ensures
            listener.wf(),
            listener.dirs() == (Map::<Seq<char>, Seq<NotifyMeta>>::empty()),
            !listener.is_running(),
            listener.upcoming_uid() == 1,
    {
        IOCPListener { watch_info: new_table(), running: false, uids: UidCounter::new() }
    }

    /// Whether the operating system has to be asked for a watch on the
    /// directory `dir`: it has, unless the directory is watched.
    pub fn dir_needs_os_watch(&self, dir: &str) -> (needed: bool)
        ensures
            needed == !self.watched(dir@),
    {
        !table_contains(&self.watch_info, dir)
    }

    /// Whether the operating system has to be asked for a watch before a
    /// handle for `path` can be added: it has, where the path lies in a
    /// directory and that directory is not watched.
    pub fn needs_os_watch(&self, path: &str) -> (needed: bool)
        ensures
            needed == (parent_dir(path@) is Some && !self.watched(parent_dir(path@)->0)),
    {
        match parent_of(path) {
            Some(dir) => self.dir_needs_os_watch(dir.as_str()),
            None => false,
        }
    }

    /// Adds a handle for the file `f_path`, which lies in the directory
    /// `dir`. The call fails for a file without a directory, and where
    /// `install` says that the operating system refused, be it the file or
    /// the watch. A directory that is watched takes the handle as it is; for
    /// any other, `install` must say that a watch is in place.
    pub fn add_watch_in_dir(
        &mut self,
        dir: Option<String>,
        f_path: String,
        install: WatchInstall,
    ) -> (added: Result<NotifyMeta, ReaderError>)
        requires
            old(self).wf(),
        ensures
            final(self).wf(),
            old(self).add_in_dir_gives(*final(self), dir_view(dir), f_path, install, added),
    {
        let dir = match install {
            WatchInstall::Failed(detail) => {
                return Err(ReaderError::IoError(detail));
            },
            _ => match dir {
                Some(dir) => dir,
                None => {
                    return Err(ReaderError::IoError("invalid path".to_string()));
                },
            },
        };
        let ghost before = self.dirs();
        let mut metas = match table_get(&self.watch_info, dir.as_str()) {
            Some(metas) => metas,
            None => match install {
                WatchInstall::Installed => Vec::new(),
                _ => {
                    return Err(ReaderError::IoError("no watch was installed".to_string()));
                },
            },
        };
        let meta = NotifyMeta::new(&mut self.uids, f_path);
        metas.push(meta.clone());
        proof {
            assert(metas@ =~= entries_of(before, dir@).push(meta));
            assert forall|other: Seq<char>| #[trigger]
                before.insert(dir@, metas@).dom().contains(other) implies before.insert(
                dir@,
                metas@,
            )[other].len() > 0 by {
                if other != dir@ {
                    assert(before.dom().contains(other));
                }
            }
        }
        table_insert(&mut self.watch_info, dir, metas);
        Ok(meta)
    }

    /// Adds a handle for the file `f_path`, in the directory that holds it.
    pub fn __add_watch(&mut self, f_path: String, install: WatchInstall) -> (added: Result<
        NotifyMeta,
        ReaderError,
    >)
        requires
            old(self).wf(),
        ensures
            final(self).wf(),
            old(self).add_watch_gives(*final(self), f_path, install, added),
    {
        let dir = parent_of(f_path.as_str());
        self.add_watch_in_dir(dir, f_path, install)
    }

    /// Removes the handles of the identity of `meta` from the directory
    /// `dir`, which holds its file. `Ok(true)` says that it was the last
    /// handle of the directory, whose entry is gone and whose
    /// operating-system watch is to be released.
    pub fn remove_watch_in_dir(&mut self, dir: Option<String>, meta: &NotifyMeta) -> (removed: Result<
        bool,
        ReaderError,
    >)
        requires
            old(self).wf(),
        ensures
            final(self).wf(),
            old(self).remove_in_dir_gives(*final(self), dir_view(dir), *meta, removed),
    {
        let dir = match dir {
            Some(dir) => dir,
            None => {
                return Err(ReaderError::NotWatched);
            },
        };
        let ghost before = self.dirs();
        match table_get(&self.watch_info, dir.as_str()) {
            None => Err(ReaderError::NotWatched),
            Some(metas) => {
                let mut kept: Vec<NotifyMeta> = Vec::new();
                let mut i: usize = 0;
                while i < metas.len()
                    invariant
                        i <= metas.len(),
                        kept@ == without_uid(metas@.take(i as int), meta.uid),
                    decreases metas.len() - i,
                {
                    proof {
                        assert(metas@.take(i + 1).drop_last() =~= metas@.take(i as int));
                    }
                    if metas[i].uid != meta.uid {
                        kept.push(metas[i].clone());
                    }
                    i += 1;
                }
                proof {
                    assert(metas@.take(i as int) =~= metas@);
                    lemma_without_uid_len(metas@, meta.uid);
                }
                if kept.len() == metas.len() {
                    Err(ReaderError::NotWatched)
                } else if kept.len() == 0 {
                    table_remove(&mut self.watch_info, dir.as_str());
                    assert forall|other: Seq<char>| #[trigger]
                        self.dirs().dom().contains(other) implies self.dirs()[other].len() > 0 by {
                        assert(before.dom().contains(other));
                    }
                    Ok(true)
                } else {
                    table_insert(&mut self.watch_info, dir, kept);
                    assert forall|other: Seq<char>| #[trigger]
                        self.dirs().dom().contains(other) implies self.dirs()[other].len() > 0 by {
                        if other != dir@ {
                            assert(before.dom().contains(other));
                        }
                    }
                    Ok(false)
                }
            },
        }
    }

    /// Removes the handles of the identity of `meta` from the directory that
    /// holds its file.
    pub fn __remove_watch(&mut self, meta: &NotifyMeta) -> (removed: Result<bool, ReaderError>)
        requires
            old(self).wf(),
        ensures
            final(self).wf(),
            old(self).remove_watch_gives(*final(self), *meta, removed),
    {
        let dir = parent_of(meta.file_path.as_str());
        self.remove_watch_in_dir(dir, meta)
    }

    /// Marks the threads as started. `true` says that they were not running
    /// and are to be started now; a second call changes nothing.
    pub fn __init(&mut self) -> (start: bool)
        ensures
            old(self).init_gives(*final(self), start),
    {
        let start = !self.running;
        self.running = true;
        start
    }

    /// One turn of the thread that waits for the operating system: what is
    /// done with the completion that it was handed.
    pub fn start_event_loop(
        &self,
        completed: bool,
        bytes_transferred: u32,
        completion_key: usize,
    ) -> (step: PumpStep)
        ensures
            step == pump_step(self.is_running(), completed, bytes_transferred, completion_key),
    {
        if !self.running {
            PumpStep::Stop
        } else if completed && bytes_transferred > 0 {
            PumpStep::Forward(completion_key)
        } else {
            PumpStep::Skip
        }
    }

    /// The files that are waited for in the directory `dir`, one for each
    /// handle and in the order of the handles: the files whose sizes
    /// [`IOCPListener::start_check_thread`] wants to be told.
    pub fn files_of(&self, dir: &str) -> (files: Vec<String>)
        ensures
            files@.len() == entries_of(self.dirs(), dir@).len(),
            forall|i: int|
                0 <= i < files@.len() ==> (#[trigger] files@[i]) == entries_of(
                    self.dirs(),
                    dir@,
                )[i].file_path,
    {
        let mut files: Vec<String> = Vec::new();
        match table_get(&self.watch_info, dir) {
            None => {},
            Some(metas) => {
                let mut i: usize = 0;
                while i < metas.len()
                    invariant
                        i <= metas.len(),
                        files@.len() == i,
                        forall|k: int| 0 <= k < i ==> (#[trigger] files@[k]) == metas@[k].file_path,
                    decreases metas.len() - i,
                {
                    files.push(metas[i].file_path.clone());
                    i += 1;
                }
            },
        }
        files
    }

    /// One turn of the checking thread, after the directory `dir` reported a
    /// change: `sizes` holds, for each handle of the directory and in their
    /// order, the size of its file now, or nothing where it could not be
    /// looked up. A handle whose file has another size than it saw last
    /// notes the new size and is offered a write event stamped `now`; any
    /// other is left alone. The watch of the directory is to be armed again
    /// after every turn.
    pub fn start_check_thread(&mut self, dir: &str, sizes: &Vec<Option<u64>>, now: u64) -> (reports:
        Vec<NotifyReport>)
        requires
            old(self).wf(),
        ensures
            final(self).wf(),
            final(self).is_running() == old(self).is_running(),
            final(self).upcoming_uid() == old(self).upcoming_uid(),
            reported_uids(reports@) == changed_uids(entries_of(old(self).dirs(), dir@), sizes@),
            forall|k: int| 0 <= k < reports@.len() ==> (#[trigger] reports@[k]).event == write_event(now),
            final(self).dirs() == if old(self).watched(dir@) {
                old(self).dirs().insert(dir@, with_sizes(old(self).dirs()[dir@], sizes@))
            } else {
                old(self).dirs()
            },
    {
        let mut reports: Vec<NotifyReport> = Vec::new();
        let ghost before = self.dirs();
        match table_get(&self.watch_info, dir) {
            None => {
                assert(reported_uids(reports@) =~= changed_uids(entries_of(before, dir@), sizes@));
            },
            Some(metas) => {
                let mut seen: Vec<NotifyMeta> = Vec::new();
                let mut i: usize = 0;
                assert(reported_uids(reports@) =~= changed_uids(metas@.take(0), sizes@));
                while i < metas.len()
                    invariant
                        i <= metas.len(),
                        seen@.len() == i,
                        forall|k: int|
                            0 <= k < i ==> (#[trigger] seen@[k]) == with_size(
                                metas@[k],
                                size_at(sizes@, k),
                            ),
                        reported_uids(reports@) == changed_uids(metas@.take(i as int), sizes@),
                        forall|k: int|
                            0 <= k < reports@.len() ==> (#[trigger] reports@[k]).event
                                == write_event(now),
                    decreases metas.len() - i,
                {
                    proof {
                        assert(metas@.take(i + 1).drop_last() =~= metas@.take(i as int));
                    }
                    let mut meta = metas[i].clone();
                    let size = if i < sizes.len() {
                        sizes[i]
                    } else {
                        None
                    };
                    match size {
                        Some(cur_size) => {
                            if meta.cur_bytes != cur_size {
                                meta.last_bytes = meta.cur_bytes;
                                meta.cur_bytes = cur_size;
                                let event = NotifyEventData {
                                    event: NotifyEvent::WriteEvent,
                                    last_notify_time: now,
                                };
                                let delivered = offer(&meta.sender, event);
                                let ghost told = reports@;
                                reports.push(NotifyReport { uid: meta.uid, event, delivered });
                                assert(reported_uids(reports@) =~= reported_uids(told).push(meta.uid));
                            }
                        },
                        None => {},
                    }
                    seen.push(meta);
                    i += 1;
                }
                proof {
                    assert(metas@.take(i as int) =~= metas@);
                    assert(seen@ =~= with_sizes(metas@, sizes@));
                    assert(before.dom().contains(dir@));
                }
                table_insert(&mut self.watch_info, dir.to_owned(), seen);
                assert forall|other: Seq<char>| #[trigger]
                    self.dirs().dom().contains(other) implies self.dirs()[other].len() > 0 by {
                    if other != dir@ {
                        assert(before.dom().contains(other));
                    }
                }
            },
        }
        reports
    }
}

} // verus!
