//! The registry of readers: one reader for each file and mode, made on first
//! demand and kept.
//!
//! A registry holds the readers of one format. Each reader is entered with
//! the tag of the record type that it was made for, and is handed out only
//! to callers that ask under the same tag. Making a reader adds a handle to
//! the listener, which is why the caller says what the operating system
//! answered when it was asked for a watch.

use vstd::prelude::*;
use crate::notify::cmon_listener::{after_add, CmonListener, WatchInstall};
use crate::reader::msg_dispatcher::CertKeyT;
use crate::reader::subscribe_reader::{after_unsubscribe, ReaderOptions, SubsReader};
use crate::utils::error::ReaderError;
use crate::utils::model::{next_uid, EncType, FileType, CSV, DBF};

verus! {

/// The run-time tag of a record type.
pub type TypeTag = u64;

/// Whether one of `readers` reads `path` in the mode `increment`.
pub open spec fn has_reader<T, P, F>(
    readers: Seq<SubsReader<T, P, F>>,
    path: Seq<char>,
    increment: bool,
) -> bool {
    exists|i: int|
        0 <= i < readers.len() && (#[trigger] readers[i]).file_path@ == path
            && readers[i].is_increment == increment
}

/// The place among `readers` of the one that reads `path` in the mode
/// `increment`.
pub open spec fn reader_index<T, P, F>(
    readers: Seq<SubsReader<T, P, F>>,
    path: Seq<char>,
    increment: bool,
) -> int {
    choose|i: int|
        0 <= i < readers.len() && (#[trigger] readers[i]).file_path@ == path
            && readers[i].is_increment == increment
}

/// No two of `readers` read the same file in the same mode.
pub open spec fn distinct_readers<T, P, F>(readers: Seq<SubsReader<T, P, F>>) -> bool {
    forall|i: int, j: int|
        0 <= i < readers.len() && 0 <= j < readers.len() && i != j ==> !((
        #[trigger] readers[i]).file_path@ == (#[trigger] readers[j]).file_path@
            && readers[i].is_increment == readers[j].is_increment)
}

/// Whether `reader` is a reader of `path` as it is made: at position 0, idle,
/// without subscribers.
pub open spec fn fresh_reader<T: Clone, P: Fn(&String, &T) -> bool, F: FileType>(
    reader: SubsReader<T, P, F>,
    path: String,
    increment: bool,
    enc_type: EncType,
    options: ReaderOptions,
) -> bool {
    &&& reader.wf()
    &&& reader.file_path == path
    &&& reader.is_increment == increment
    &&& reader.enc_type == enc_type
    &&& reader.options == options
    &&& reader.seek_pos == 0
    &&& !reader.is_running
    &&& !reader.read_from_head
    &&& reader.last_read_time == 0
    &&& reader.msg_dispatcher.certs().len() == 0
    &&& reader.msg_dispatcher.next_cert_key() == 1
    &&& reader.register_before_pos@ == Map::<CertKeyT, u64>::empty()
}

/// The readers of one format.
#[verifier::reject_recursive_types(T)]
#[verifier::reject_recursive_types(F)]
pub struct ReaderRegistry<T, P, F> {
    entries: Vec<SubsReader<T, P, F>>,
    type_tags: Vec<TypeTag>,
}

impl<T: Clone, P: Fn(&String, &T) -> bool, F: FileType> ReaderRegistry<T, P, F> {
    /// The readers, in the order in which they were made.
    pub closed spec fn readers(&self) -> Seq<SubsReader<T, P, F>> {
        self.entries@
    }

    /// For each reader, the tag of the record type that it was made for.
    pub closed spec fn tags(&self) -> Seq<TypeTag> {
        self.type_tags@
    }

    /// There is at most one reader for each file and mode, every reader has
    /// its tag, and every reader is well formed.
    pub open spec fn wf(&self) -> bool {
        &&& distinct_readers(self.readers())
        &&& self.tags().len() == self.readers().len()
        &&& forall|i: int| 0 <= i < self.readers().len() ==> (#[trigger] self.readers()[i]).wf()
    }

    /// Whether `after`, `listener_after` and `at` are what a call for the
    /// reader of `path` in the mode `increment`, under the tag `type_tag`,
    /// gives.
    ///
    /// A reader that is there is handed out where it was made under the same
    /// tag, and refused as a type mismatch where it was not; nothing changes
    /// either way. One that is made is added at the end, under the tag and
    /// with the handle that the listener made for it; the listener fails
    /// where the path is not watched and no watch was installed, and then no
    /// reader is made.
    pub open spec fn get_or_create_gives(
        &self,
        after: Self,
        listener_before: CmonListener,
        listener_after: CmonListener,
        type_tag: TypeTag,
        path: String,
        increment: bool,
        enc_type: EncType,
        options: ReaderOptions,
        install: WatchInstall,
        at: Result<usize, ReaderError>,
    ) -> bool {
        if has_reader(self.readers(), path@, increment) {
            let place = reader_index(self.readers(), path@, increment);
            &&& after.readers() == self.readers()
            &&& after.tags() == self.tags()
            &&& listener_after.watches() == listener_before.watches()
            &&& listener_after.upcoming_uid() == listener_before.upcoming_uid()
            &&& listener_after.is_running() == listener_before.is_running()
            &&& at is Ok <==> self.tags()[place] == type_tag
            &&& at is Ok ==> at->Ok_0 == place
            &&& at is Err ==> at->Err_0 is TypeMismatch
        } else {
            &&& at is Ok <==> listener_before.watched(path@) || install is Installed
            &&& listener_after.upcoming_uid() == next_uid(listener_before.upcoming_uid())
            &&& listener_after.is_running() == listener_before.is_running()
            &&& match at {
                Ok(place) => {
                    &&& place == self.readers().len()
                    &&& after.readers().len() == self.readers().len() + 1
                    &&& after.readers().take(self.readers().len() as int) == self.readers()
                    &&& after.tags() == self.tags().push(type_tag)
                    &&& fresh_reader(after.readers()[place as int], path, increment, enc_type, options)
                    &&& after.readers()[place as int].notify_meta.uid
                        == listener_before.upcoming_uid()
                    &&& after.readers()[place as int].notify_meta.file_path == path
                    &&& listener_after.watches() == after_add(
                        listener_before.watches(),
                        path@,
                        after.readers()[place as int].notify_meta,
                    )
                },
                Err(error) => {
                    &&& after.readers() == self.readers()
                    &&& after.tags() == self.tags()
                    &&& listener_after.watches() == listener_before.watches()
                    &&& error is IoError
                },
            }
        }
    }

    /// Whether `after` and `ended` are what ending the subscription
    /// `cert_key` of the reader of `path` in the mode `increment`, under the
    /// tag `type_tag`, gives.
    ///
    /// Without such a reader the call fails and nothing changes; so it does
    /// where the reader was made under another tag. Else the reader is the
    /// only one that changes, as its own `unsubscribe` says, and it stays
    /// in the registry.
    pub open spec fn remove_gives(
        &self,
        after: Self,
        type_tag: TypeTag,
        cert_key: CertKeyT,
        increment: bool,
        path: String,
        ended: Result<bool, ReaderError>,
    ) -> bool {
        &&& after.tags() == self.tags()
        &&& after.readers().len() == self.readers().len()
        &&& if !has_reader(self.readers(), path@, increment) {
            &&& after.readers() == self.readers()
            &&& ended is Err
            &&& ended->Err_0 is NoSuchReader
        } else {
            let at = reader_index(self.readers(), path@, increment);
            if self.tags()[at] != type_tag {
                &&& after.readers() == self.readers()
                &&& ended is Err
                &&& ended->Err_0 is TypeMismatch
            } else {
                &&& after.readers() == self.readers().update(at, after.readers()[at])
                &&& after_unsubscribe(self.readers()[at], after.readers()[at], cert_key, ended)
            }
        }
    }

    /// A registry without readers.
    pub fn new() -> (registry: Self)
        ensures
            registry.wf(),
            registry.readers().len() == 0,
    {
        ReaderRegistry { entries: Vec::new(), type_tags: Vec::new() }
    }

    /// Where the reader of `path` in the mode `increment` stands, if there is
    /// one.
    pub fn find(&self, path: &String, increment: bool) -> (at: Option<usize>)
        ensures
            at is Some <==> has_reader(self.readers(), path@, increment),
            at is Some ==> at->0 < self.readers().len() && self.readers()[at->0 as int].file_path@
                == path@ && self.readers()[at->0 as int].is_increment == increment,
            at is Some && distinct_readers(self.readers()) ==> at->0 == reader_index(
                self.readers(),
                path@,
                increment,
            ),
    {
        let mut i: usize = 0;
        while i < self.entries.len()
            invariant
                i <= self.readers().len(),
                forall|j: int|
                    0 <= j < i ==> !((#[trigger] self.readers()[j]).file_path@ == path@
                        && self.readers()[j].is_increment == increment),
            decreases self.readers().len() - i,
        {
            if self.entries[i].is_increment == increment && self.entries[i].file_path == *path {
                return Some(i);
            }
            i += 1;
        }
        None
    }

    /// Whether the operating system has to be asked for a watch on `path`
    /// before a reader can be had for it: it has, where the reader is yet to
    /// be made and the listener does not watch the path.
    pub fn needs_os_watch(&self, listener: &CmonListener, path: &String, increment: bool) -> (needed:
        bool)
        ensures
            needed == (!has_reader(self.readers(), path@, increment) && !listener.watched(path@)),
    {
        self.find(path, increment).is_none() && listener.needs_os_watch(path.as_str())
    }

    /// The reader of `path` in the mode `increment` for the record type of
    /// tag `type_tag`: the one that the registry holds, or a new one. A new
    /// reader gets a handle of `listener`; it starts at position 0, idle and
    /// without subscribers.
    pub fn get_or_create(
        &mut self,
        listener: &mut CmonListener,
        type_tag: TypeTag,
        path: &String,
        increment: bool,
        enc_type: EncType,
        options: ReaderOptions,
        install: WatchInstall,
    ) -> (at: Result<usize, ReaderError>)
        requires
            old(self).wf(),
            old(listener).wf(),
        ensures
            final(self).wf(),
            final(listener).wf(),
            old(self).get_or_create_gives(
                *final(self),
                *old(listener),
                *final(listener),
                type_tag,
                *path,
                increment,
                enc_type,
                options,
                install,
                at,
            ),
    {
        match self.find(path, increment) {
            Some(i) => {
                if self.type_tags[i] == type_tag {
                    Ok(i)
                } else {
                    Err(ReaderError::TypeMismatch)
                }
            },
            None => {
                match listener.__add_watch(path.clone(), install) {
                    Ok(meta) => {
                        let reader = SubsReader::new(
                            meta,
                            path.clone(),
                            increment,
                            enc_type,
                            options,
                        );
                        let at = self.entries.len();
                        let ghost before = self.readers();
                        self.entries.push(reader);
                        self.type_tags.push(type_tag);
                        assert(self.readers().take(before.len() as int) =~= before);
                        assert(self.readers()[at as int] == reader);
                        Ok(at)
                    },
                    Err(error) => Err(error),
                }
            },
        }
    }

    /// Ends the subscription `cert_key` of the reader of `path` in the mode
    /// `increment`. The reader stays in the registry, also when its last
    /// subscription has left: `Ok(true)` says that it has.
    pub fn remove(
        &mut self,
        type_tag: TypeTag,
        cert_key: CertKeyT,
        increment: bool,
        path: &String,
    ) -> (ended: Result<bool, ReaderError>)
        requires
            old(self).wf(),
        ensures
            final(self).wf(),
            old(self).remove_gives(*final(self), type_tag, cert_key, increment, *path, ended),
    {
        match self.find(path, increment) {
            None => Err(ReaderError::NoSuchReader),
            Some(i) => {
                if self.type_tags[i] != type_tag {
                    return Err(ReaderError::TypeMismatch);
                }
                let ghost before = self.readers();
                let ended = self.entries[i].unsubscribe(cert_key);
                assert(self.readers() =~= before.update(i as int, self.readers()[i as int]));
                ended
            },
        }
    }

    /// The reader that stands at `at`.
    pub fn reader(&self, at: usize) -> (reader: &SubsReader<T, P, F>)
        requires
            at < self.readers().len(),
        ensures
            *reader == self.readers()[at as int],
    {
        &self.entries[at]
    }

    /// The reader that stands at `at`, to subscribe to it or to take it through
    /// its turns. Whoever changes it keeps to its file and mode.
    pub fn reader_mut(&mut self, at: usize) -> (reader: &mut SubsReader<T, P, F>)
        requires
            at < old(self).readers().len(),
        ensures
            *reader == old(self).readers()[at as int],
            final(self).readers() == old(self).readers().update(at as int, *final(reader)),
            final(self).tags() == old(self).tags(),
    {
        &mut self.entries[at]
    }
}

/// The reader of comma-separated text for `path` in the mode `increment`:
/// the one that `registry` holds, or a new one.
pub fn get_or_create_csv_reader<T: Clone, P: Fn(&String, &T) -> bool>(
    registry: &mut ReaderRegistry<T, P, CSV>,
    listener: &mut CmonListener,
    type_tag: TypeTag,
    path: &String,
    increment: bool,
    enc_type: EncType,
    options: ReaderOptions,
    install: WatchInstall,
) -> (at: Result<usize, ReaderError>)
    requires
        old(registry).wf(),
        old(listener).wf(),
    ensures
        final(registry).wf(),
        final(listener).wf(),
        old(registry).get_or_create_gives(
            *final(registry),
            *old(listener),
            *final(listener),
            type_tag,
            *path,
            increment,
            enc_type,
            options,
            install,
            at,
        ),
{
    registry.get_or_create(listener, type_tag, path, increment, enc_type, options, install)
}

/// Ends the subscription `cert_key` of the reader of comma-separated text for
/// `path` in the mode `increment`.
pub fn remove_csv_reader<T: Clone, P: Fn(&String, &T) -> bool>(
    registry: &mut ReaderRegistry<T, P, CSV>,
    type_tag: TypeTag,
    cert_key: CertKeyT,
    increment: bool,
    path: &String,
) -> (ended: Result<bool, ReaderError>)
    requires
        old(registry).wf(),
    ensures
        final(registry).wf(),
        old(registry).remove_gives(*final(registry), type_tag, cert_key, increment, *path, ended),
{
    registry.remove(type_tag, cert_key, increment, path)
}

/// The reader of xBase tables for `path` in the mode `increment`: the one
/// that `registry` holds, or a new one.
pub fn get_or_create_dbf_reader<T: Clone, P: Fn(&String, &T) -> bool>(
    registry: &mut ReaderRegistry<T, P, DBF>,
    listener: &mut CmonListener,
    type_tag: TypeTag,
    path: &String,
    increment: bool,
    enc_type: EncType,
    options: ReaderOptions,
    install: WatchInstall,
) -> (at: Result<usize, ReaderError>)
    requires
        old(registry).wf(),
        old(listener).wf(),
    ensures
        final(registry).wf(),
        final(listener).wf(),
        old(registry).get_or_create_gives(
            *final(registry),
            *old(listener),
            *final(listener),
            type_tag,
            *path,
            increment,
            enc_type,
            options,
            install,
            at,
        ),
{
    registry.get_or_create(listener, type_tag, path, increment, enc_type, options, install)
}

/// Ends the subscription `cert_key` of the reader of xBase tables for `path`
/// in the mode `increment`.
pub fn remove_dbf_reader<T: Clone, P: Fn(&String, &T) -> bool>(
    registry: &mut ReaderRegistry<T, P, DBF>,
    type_tag: TypeTag,
    cert_key: CertKeyT,
    increment: bool,
    path: &String,
) -> (ended: Result<bool, ReaderError>)
    requires
        old(registry).wf(),
    ensures
        final(registry).wf(),
        old(registry).remove_gives(*final(registry), type_tag, cert_key, increment, *path, ended),
{
    registry.remove(type_tag, cert_key, increment, path)
}

/// Asking twice for the same file and mode under the same tag gives the same
/// reader, and the second call neither makes a reader nor touches the
/// listener: whatever the first call left behind, a call that finds the
/// reader changes nothing. Asking under another tag is refused, and changes
/// nothing either.
pub proof fn lemma_same_reader_on_second_call<T: Clone, P: Fn(&String, &T) -> bool, F: FileType>(
    first: ReaderRegistry<T, P, F>,
    second: ReaderRegistry<T, P, F>,
    third: ReaderRegistry<T, P, F>,
    listener_first: CmonListener,
    listener_second: CmonListener,
    listener_third: CmonListener,
    type_tag: TypeTag,
    other_tag: TypeTag,
    path: String,
    increment: bool,
    enc_type: EncType,
    options: ReaderOptions,
    install_first: WatchInstall,
    install_second: WatchInstall,
    at_first: Result<usize, ReaderError>,
    at_second: Result<usize, ReaderError>,
)
    requires
        first.wf(),
        first.get_or_create_gives(
            second,
            listener_first,
            listener_second,
            type_tag,
            path,
            increment,
            enc_type,
            options,
            install_first,
            at_first,
        ),
        second.get_or_create_gives(
            third,
            listener_second,
            listener_third,
            other_tag,
            path,
            increment,
            enc_type,
            options,
            install_second,
            at_second,
        ),
        at_first is Ok,
    ensures
        third.readers() == second.readers(),
        third.tags() == second.tags(),
        listener_third.watches() == listener_second.watches(),
        other_tag == type_tag ==> at_second is Ok && at_second->Ok_0 == at_first->Ok_0,
        other_tag != type_tag ==> at_second is Err && at_second->Err_0 is TypeMismatch,
{
    let place = at_first->Ok_0 as int;
    let readers = second.readers();
    if has_reader(first.readers(), path@, increment) {
        assert(readers == first.readers());
    } else {
        assert(readers[place].file_path@ == path@ && readers[place].is_increment == increment);
        assert(has_reader(readers, path@, increment));
        let found = reader_index(readers, path@, increment);
        if found != place {
            assert(readers.take(first.readers().len() as int)[found] == readers[found]);
            assert(first.readers()[found].file_path@ == path@ && first.readers()[found].is_increment
                == increment);
        }
        assert(second.tags()[place] == type_tag);
    }
}

} // verus!
