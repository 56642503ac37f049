//! The backend for xBase tables: positions are record counts.
//!
//! The caller opens the table and decodes its records; this module cuts out
//! the part that a read asks for and says where the reader stands after it.

use vstd::prelude::*;
use crate::reader::msg_dispatcher::Record;

verus! {

/// The number of records that a read of `seek_pos` records can take from a
/// table of `total` records.
pub open spec fn reachable(total: nat, seek_pos: u64) -> int {
    if seek_pos <= total {
        seek_pos as int
    } else {
        total as int
    }
}

/// The first `seek_pos` records of a table, or all of them where it has
/// fewer: what a subscriber is sent to catch up.
pub fn read_to_seek<T>(records: Vec<Record<T>>, seek_pos: u64) -> (head: Vec<Record<T>>)
    ensures
        head@ == records@.take(reachable(records@.len(), seek_pos)),
{
    let mut head = records;
    if seek_pos < head.len() as u64 {
        head.truncate(seek_pos as usize);
    }
    assert(head@ =~= records@.take(reachable(records@.len(), seek_pos)));
    head
}

/// The records of a table from the one numbered `begin_seek` on, with the
/// position after them. A table always ends on a whole record, so the flag is
/// `true`. A table that has no more than `begin_seek` records gives none and
/// leaves the position where it was.
pub fn read_from_seek<T>(records: Vec<Record<T>>, begin_seek: u64) -> (read: (
    u64,
    Vec<Record<T>>,
    bool,
))
    ensures
        read.1@ == records@.skip(reachable(records@.len(), begin_seek)),
        read.0 == begin_seek + read.1@.len(),
        read.2,
{
    let mut head = records;
    if begin_seek < head.len() as u64 {
        let tail = head.split_off(begin_seek as usize);
        (begin_seek + tail.len() as u64, tail, true)
    } else {
        let tail: Vec<Record<T>> = Vec::new();
        assert(tail@ =~= records@.skip(reachable(records@.len(), begin_seek)));
        (begin_seek, tail, true)
    }
}

} // verus!
