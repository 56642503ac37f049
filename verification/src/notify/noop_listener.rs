//! The listener for platforms on which nothing can be watched.

use vstd::prelude::*;
use crate::notify::cmon_listener::WatchInstall;
use crate::notify::FileListener;
use crate::utils::error::ReaderError;
use crate::utils::model::NotifyMeta;

verus! {

/// A listener that watches nothing: it refuses every handle.
pub struct NoopListener;

impl FileListener for NoopListener {
    open spec fn wf(&self) -> bool {
        true
    }

    /// Refuses the handle.
    fn add_watch(&mut self, f_path: String, install: WatchInstall) -> (added: Result<
        NotifyMeta,
        ReaderError,
    >)
        ensures
            added is Err,
            added->Err_0 is IoError,
            added->Err_0->IoError_0@ == "No file listener implemented"@,
    {
        Err(ReaderError::IoError("No file listener implemented".to_string()))
    }

    /// Has nothing to remove: no handle is watched here.
    fn remove_watch(&mut self, meta: &NotifyMeta) -> (removed: Result<bool, ReaderError>)
        ensures
            removed is Err,
            removed->Err_0 is NotWatched,
    {
        Err(ReaderError::NotWatched)
    }

    /// Has nothing to start.
    fn init(&mut self) -> (start: Result<bool, ReaderError>)
        ensures
            start == Ok::<bool, ReaderError>(false),
    {
        Ok(false)
    }
}

} // verus!
