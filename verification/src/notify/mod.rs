//! File-change listeners.

use vstd::prelude::*;
use crate::notify::cmon_listener::{CmonListener, WatchInstall};
use crate::notify::iocp_listener::IOCPListener;
use crate::utils::error::ReaderError;
use crate::utils::model::NotifyMeta;

pub mod path_map;
pub mod cmon_listener;
pub mod iocp_listener;
pub mod noop_listener;

verus! {

/// What every listener offers, whatever the platform lets it watch.
pub trait FileListener {
    /// The bookkeeping of the listener is in order.
    spec fn wf(&self) -> bool;

    /// Adds a handle for the file `f_path`; `install` says what the operating
    /// system answered when it was asked for the watch that the handle needs.
    fn add_watch(&mut self, f_path: String, install: WatchInstall) -> (added: Result<
        NotifyMeta,
        ReaderError,
    >)
        requires
            old(self).wf(),
        ensures
            final(self).wf(),
            added is Ok ==> added->Ok_0.file_path == f_path,
    ;

    /// Removes the handle `meta`; `Ok(true)` says that the operating-system
    /// watch behind it is to be released.
    fn remove_watch(&mut self, meta: &NotifyMeta) -> (removed: Result<bool, ReaderError>)
        requires
            old(self).wf(),
        ensures
            final(self).wf(),
    ;

    /// Marks the listener as started; `Ok(true)` says that its threads are to
    /// be started now.
    fn init(&mut self) -> (start: Result<bool, ReaderError>)
        requires
            old(self).wf(),
        ensures
            final(self).wf(),
    ;
}

impl FileListener for CmonListener {
    open spec fn wf(&self) -> bool {
        CmonListener::wf(self)
    }

    fn add_watch(&mut self, f_path: String, install: WatchInstall) -> (added: Result<
        NotifyMeta,
        ReaderError,
    >)
        ensures
            old(self).add_watch_gives(*final(self), f_path, install, added),
    {
        self.__add_watch(f_path, install)
    }

    fn remove_watch(&mut self, meta: &NotifyMeta) -> (removed: Result<bool, ReaderError>)
        ensures
            old(self).remove_watch_gives(*final(self), *meta, removed),
    {
        self.__remove_watch(meta)
    }

    fn init(&mut self) -> (start: Result<bool, ReaderError>)
        ensures
            start is Ok,
            old(self).init_gives(*final(self), start->Ok_0),
    {
        Ok(self.__init())
    }
}

impl FileListener for IOCPListener {
    open spec fn wf(&self) -> bool {
        IOCPListener::wf(self)
    }

    fn add_watch(&mut self, f_path: String, install: WatchInstall) -> (added: Result<
        NotifyMeta,
        ReaderError,
    >)
        ensures
            old(self).add_watch_gives(*final(self), f_path, install, added),
    {
        self.__add_watch(f_path, install)
    }

    fn remove_watch(&mut self, meta: &NotifyMeta) -> (removed: Result<bool, ReaderError>)
        ensures
            old(self).remove_watch_gives(*final(self), *meta, removed),
    {
        self.__remove_watch(meta)
    }

    fn init(&mut self) -> (start: Result<bool, ReaderError>)
        ensures
            start is Ok,
            old(self).init_gives(*final(self), start->Ok_0),
    {
        Ok(self.__init())
    }
}

} // verus!
